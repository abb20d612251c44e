//! The transfer codec fingerprint: a digest over the encodings of one
//! sample of every transfer message, so that two nodes whose codecs differ
//! refuse each other at the handshake.

use vstd::prelude::*;
use vstd::utf8::encode_utf8;
use crate::bloom::BloomFilter;
use crate::hashing::{blake3_hash, hash_bytes};
use crate::protocol::{
    BatchChunkRequest, BatchChunkResponse, BlobBroadcast, BlobInventoryEntry, ChunkPartRequest,
    ChunkPartResponse, ChunkRequest, ChunkResponse, DagInventory, ExecutionBroadcast,
    FinalizedTransitionRequest, FinalizedTransitionResponse, LeaderExecutionRequest,
    LeaderExecutionResponse, ManifestRequest, ManifestResponse, ObjectAvailabilityRequest,
    ObjectAvailabilityResponse, ObjectMetadataRequest, ObjectMetadataResponse, ProgramBroadcast,
    ProgramManifestRequest, ProgramManifestResponse, StateRequest, StateResponse, SyncDelta,
    SyncSnapshot, TransferRequest, TransferResponse, UnifiedRequest, UnifiedResponse,
    TRANSFER_PROTOCOL,
};
use crate::types::{
    BlobId, BlobMetadata, ChunkDescriptor, ChunkId, ComputeOp, Manifest, ManifestId, NodeId,
    Object, ObjectId, ObjectType, ProgramId, ProgramMetadata, StateWrite,
};

verus! {

/// A message of the transfer protocol, either way.
#[derive(Clone, Debug, PartialEq, Eq)]
pub enum TransferMessage {
    Request(TransferRequest),
    Response(TransferResponse),
}

/// The labels of the samples, in the order they are hashed.
pub open spec fn spec_fingerprint_labels() -> Seq<Seq<char>> {
    seq![
        "req:program"@, "req:program_chunk"@, "req:blob"@, "req:blob_chunk"@, "req:execution"@,
        "req:push_program"@, "req:push_program_chunk"@, "req:push_blob"@, "req:push_execution"@,
        "req:sync"@, "req:state_request"@, "req:inventory_request"@,
        "req:unified:0"@, "req:unified:1"@, "req:unified:2"@, "req:unified:3"@, "req:unified:4"@,
        "req:unified:5"@, "req:unified:6"@, "req:unified:7"@, "req:unified:8"@,
        "resp:program"@, "resp:program_chunk"@, "resp:blob"@, "resp:blob_chunk"@, "resp:execution"@,
        "resp:sync"@, "resp:ack"@, "resp:state_response"@, "resp:inventory"@,
        "resp:unified:0"@, "resp:unified:1"@, "resp:unified:2"@, "resp:unified:3"@, "resp:unified:4"@,
        "resp:unified:5"@, "resp:unified:6"@, "resp:unified:7"@, "resp:unified:8"@
    ]
}

/// Whether all 32 bytes are `b`.
pub open spec fn spec_filled(a: [u8; 32], b: u8) -> bool {
    a@ == Seq::new(32, |k: int| b)
}

/// 32 bytes, all `b`.
fn filled(b: u8) -> (res: [u8; 32])
    ensures
        spec_filled(res, b),
{
    let a = [b; 32];
    assert(a@ =~= Seq::new(32, |k: int| b));
    a
}

/// Whether `m` is the sample blob metadata.
pub open spec fn spec_sample_blob_meta(m: BlobMetadata) -> bool {
    &&& spec_filled(m.id.0, 1)
    &&& spec_filled(m.publisher.0, 2)
    &&& m.size == 1
    &&& m.mime matches Some(t) && t@ == "application/octet-stream"@
    &&& m.chunk_sizes@ =~= seq![1u32]
    &&& m.chunk_hashes@.len() == 1 && spec_filled(m.chunk_hashes@[0], 7)
    &&& spec_filled(m.merkle_root, 8)
    &&& m.data_shards == 1
    &&& m.parity_shards == 1
}

fn sample_blob_meta() -> (res: BlobMetadata)
    ensures
        spec_sample_blob_meta(res),
{
    BlobMetadata {
        id: BlobId(filled(1)),
        publisher: NodeId(filled(2)),
        size: 1,
        mime: Some(String::from_str("application/octet-stream")),
        chunk_sizes: vec![1u32],
        chunk_hashes: vec![filled(7)],
        merkle_root: filled(8),
        data_shards: 1,
        parity_shards: 1,
    }
}

/// Whether `p` is the sample program broadcast.
pub open spec fn spec_sample_program(p: ProgramBroadcast) -> bool {
    &&& spec_filled(p.meta.id.0, 0)
    &&& spec_filled(p.meta.publisher.0, 2)
    &&& p.meta.size == 1
    &&& p.meta.entrypoint@ == "main"@
    &&& p.meta.blob_refs@.len() == 1 && spec_filled(p.meta.blob_refs@[0].0, 1)
    &&& p.meta.deploy_salt@ =~= seq![9u8]
    &&& p.wasm@ =~= seq![0x00u8]
}

fn sample_program() -> (res: ProgramBroadcast)
    ensures
        spec_sample_program(res),
{
    ProgramBroadcast {
        meta: ProgramMetadata {
            id: ProgramId(filled(0)),
            publisher: NodeId(filled(2)),
            size: 1,
            entrypoint: String::from_str("main"),
            blob_refs: vec![BlobId(filled(1))],
            deploy_salt: vec![9u8],
        },
        wasm: vec![0x00u8],
    }
}

/// Whether `e` is the sample execution broadcast.
pub open spec fn spec_sample_execution(e: ExecutionBroadcast) -> bool {
    &&& spec_filled(e.dag_id, 6)
    &&& spec_filled(e.op.program_id.0, 0)
    &&& spec_filled(e.op.input.0, 1)
    &&& spec_filled(e.op.output.id.0, 1)
    &&& spec_filled(e.op.output.publisher.0, 2)
    &&& e.op.output.size == 1
    &&& e.op.output.mime is None
    &&& e.op.output.chunk_sizes@ =~= seq![1u32]
    &&& e.op.output.chunk_hashes@.len() == 1 && spec_filled(e.op.output.chunk_hashes@[0], 10)
    &&& spec_filled(e.op.output.merkle_root, 11)
    &&& e.op.output.data_shards == 1
    &&& e.op.output.parity_shards == 1
    &&& e.op.fuel_used == 1
    &&& spec_filled(e.op.state_root, 12)
    &&& e.op.state_writes@.len() == 1
    &&& e.op.state_writes@[0].key@ =~= seq![0x01u8]
    &&& e.op.state_writes@[0].value matches Some(v) && v@ =~= seq![0x02u8]
}

fn sample_execution() -> (res: ExecutionBroadcast)
    ensures
        spec_sample_execution(res),
{
    ExecutionBroadcast {
        dag_id: filled(6),
        op: ComputeOp {
            program_id: ProgramId(filled(0)),
            input: BlobId(filled(1)),
            output: BlobMetadata {
                id: BlobId(filled(1)),
                publisher: NodeId(filled(2)),
                size: 1,
                mime: None,
                chunk_sizes: vec![1u32],
                chunk_hashes: vec![filled(10)],
                merkle_root: filled(11),
                data_shards: 1,
                parity_shards: 1,
            },
            fuel_used: 1,
            state_root: filled(12),
            state_writes: vec![StateWrite { key: vec![0x01u8], value: Some(vec![0x02u8]) }],
        },
    }
}

/// Whether `o` is the sample object: a program object.
pub open spec fn spec_sample_object(o: Object) -> bool {
    &&& spec_filled(o.id.0, 3)
    &&& o.object_type matches ObjectType::WasmProgram {
            entrypoint, wasm_version, source_language, compiler, blob_refs, deploy_salt,
        } && entrypoint@ == "main"@
        && (wasm_version matches Some(v) && v@ == "v1"@)
        && (source_language matches Some(l) && l@ == "rust"@)
        && (compiler matches Some(c) && c@ == "rustc"@)
        && blob_refs@.len() == 1 && spec_filled(blob_refs@[0].0, 17)
        && deploy_salt@ =~= seq![0x01u8, 0x02u8]
    &&& o.total_size == 1
    &&& o.chunk_count == 1
    &&& spec_filled(o.manifest_id.0, 4)
    &&& spec_filled(o.publisher.0, 2)
    &&& o.created_at == 1
}

fn sample_object() -> (res: Object)
    ensures
        spec_sample_object(res),
{
    Object {
        id: ObjectId(filled(3)),
        object_type: ObjectType::WasmProgram {
            entrypoint: String::from_str("main"),
            wasm_version: Some(String::from_str("v1")),
            source_language: Some(String::from_str("rust")),
            compiler: Some(String::from_str("rustc")),
            blob_refs: vec![ObjectId(filled(17))],
            deploy_salt: vec![0x01u8, 0x02u8],
        },
        total_size: 1,
        chunk_count: 1,
        manifest_id: ManifestId(filled(4)),
        publisher: NodeId(filled(2)),
        created_at: 1,
    }
}

/// Whether `m` is the sample manifest: one chunk.
pub open spec fn spec_sample_manifest(m: Manifest) -> bool {
    &&& spec_filled(m.object_id.0, 3)
    &&& spec_filled(m.content_hash, 18)
    &&& m.chunks@.len() == 1
    &&& spec_filled(m.chunks@[0].chunk_id.0, 5)
    &&& m.chunks@[0].size == 1
    &&& m.chunks@[0].offset == 0
    &&& m.version == 1
}

fn sample_manifest() -> (res: Manifest)
    ensures
        spec_sample_manifest(res),
{
    Manifest {
        object_id: ObjectId(filled(3)),
        content_hash: filled(18),
        chunks: vec![ChunkDescriptor { chunk_id: ChunkId(filled(5)), size: 1, offset: 0 }],
        version: 1,
    }
}

/// Whether `d` is the sample inventory.
pub open spec fn spec_sample_inventory(d: DagInventory) -> bool {
    &&& d.programs@.len() == 1 && spec_filled(d.programs@[0], 14)
    &&& d.program_bloom matches Some(f) && f.bits@ =~= seq![0u8, 1u8, 2u8] && f.k == 3 && spec_filled(f.salt, 0)
    &&& d.blobs@.len() == 1
    &&& spec_filled(d.blobs@[0].id, 15)
    &&& d.blobs@[0].has_data
    &&& d.blobs@[0].locations@.len() == 1 && d.blobs@[0].locations@[0]@ == "local"@
    &&& d.executions@.len() == 1 && spec_filled(d.executions@[0], 16)
}

fn sample_inventory() -> (res: DagInventory)
    ensures
        spec_sample_inventory(res),
{
    DagInventory {
        programs: vec![filled(14)],
        program_bloom: Some(BloomFilter { bits: vec![0u8, 1u8, 2u8], k: 3, salt: filled(0) }),
        blobs: vec![BlobInventoryEntry { id: filled(15), has_data: true, locations: vec![String::from_str("local")] }],
        executions: vec![filled(16)],
    }
}

/// Whether `r` is the `i`-th sample unified request: one of each kind, in
/// the order of the kinds.
pub open spec fn spec_sample_unified_request(i: int, r: UnifiedRequest) -> bool {
    if i == 0 {
        r matches UnifiedRequest::GetObjectMetadata(q) && spec_filled(q.object_id.0, 3)
    } else if i == 1 {
        r matches UnifiedRequest::GetManifest(q) && spec_filled(q.object_id.0, 3)
    } else if i == 2 {
        r matches UnifiedRequest::GetChunk(q) && spec_filled(q.chunk_id.0, 5)
    } else if i == 3 {
        r matches UnifiedRequest::GetChunkPart(q) && spec_filled(q.chunk_id.0, 5) && q.offset == 0 && q.length == 1
    } else if i == 4 {
        r matches UnifiedRequest::GetChunks(q) && q.chunk_ids@.len() == 1 && spec_filled(q.chunk_ids@[0].0, 5)
    } else if i == 5 {
        r matches UnifiedRequest::GetObjectAvailability(q) && spec_filled(q.object_id.0, 3)
    } else if i == 6 {
        r matches UnifiedRequest::GetFinalizedTransition(q) && spec_filled(q.program_id.0, 0) && q.height == 1
    } else if i == 7 {
        r matches UnifiedRequest::ExecuteViaLeader(q) && spec_filled(q.request_id, 19)
            && spec_filled(q.program_id.0, 0) && q.calldata@ =~= seq![0x01u8]
    } else {
        r matches UnifiedRequest::GetProgramManifest(q) && spec_filled(q.program_id.0, 0)
    }
}

fn sample_unified_request(i: usize) -> (res: UnifiedRequest)
    requires
        i < 9,
    ensures
        spec_sample_unified_request(i as int, res),
{
    let object_id = ObjectId(filled(3));
    let chunk_id = ChunkId(filled(5));
    let program_id = ProgramId(filled(0));
    if i == 0 {
        UnifiedRequest::GetObjectMetadata(ObjectMetadataRequest { object_id })
    } else if i == 1 {
        UnifiedRequest::GetManifest(ManifestRequest { object_id })
    } else if i == 2 {
        UnifiedRequest::GetChunk(ChunkRequest { chunk_id })
    } else if i == 3 {
        UnifiedRequest::GetChunkPart(ChunkPartRequest { chunk_id, offset: 0, length: 1 })
    } else if i == 4 {
        UnifiedRequest::GetChunks(BatchChunkRequest { chunk_ids: vec![chunk_id] })
    } else if i == 5 {
        UnifiedRequest::GetObjectAvailability(ObjectAvailabilityRequest { object_id })
    } else if i == 6 {
        UnifiedRequest::GetFinalizedTransition(FinalizedTransitionRequest { program_id, height: 1 })
    } else if i == 7 {
        UnifiedRequest::ExecuteViaLeader(LeaderExecutionRequest {
            request_id: filled(19),
            program_id,
            calldata: vec![0x01u8],
        })
    } else {
        UnifiedRequest::GetProgramManifest(ProgramManifestRequest { program_id })
    }
}

/// Whether `r` is the `i`-th sample unified response: one of each kind, in
/// the order of the kinds.
pub open spec fn spec_sample_unified_response(i: int, r: UnifiedResponse) -> bool {
    if i == 0 {
        r matches UnifiedResponse::ObjectMetadata(q) && spec_filled(q.object_id.0, 3)
            && (q.metadata matches Some(o) && spec_sample_object(o))
    } else if i == 1 {
        r matches UnifiedResponse::Manifest(q) && (q.manifest matches Some(m) && spec_sample_manifest(m))
    } else if i == 2 {
        r matches UnifiedResponse::Chunk(q) && spec_filled(q.chunk_id.0, 5)
            && (q.data matches Some(d) && d@ =~= seq![0x01u8, 0x02u8])
    } else if i == 3 {
        r matches UnifiedResponse::ChunkPart(q) && spec_filled(q.chunk_id.0, 5) && q.offset == 0
            && (q.data matches Some(d) && d@ =~= seq![0x04u8])
    } else if i == 4 {
        r matches UnifiedResponse::Chunks(q) && q.chunks@.len() == 1 && spec_filled(q.chunks@[0].0.0, 5)
            && (q.chunks@[0].1 matches Some(d) && d@ =~= seq![0x03u8])
    } else if i == 5 {
        r matches UnifiedResponse::ObjectAvailability(q) && spec_filled(q.object_id.0, 3)
            && q.has_object && q.has_manifest
            && q.available_chunks@.len() == 1 && spec_filled(q.available_chunks@[0].0, 5)
            && q.missing_chunks@.len() == 1 && spec_filled(q.missing_chunks@[0].0, 20)
            && (q.metadata matches Some(o) && spec_sample_object(o))
    } else if i == 6 {
        r matches UnifiedResponse::FinalizedTransition(q) && spec_filled(q.program_id.0, 0) && q.height == 1
            && q.bundle is None
    } else if i == 7 {
        r matches UnifiedResponse::ExecuteViaLeader(q) && spec_filled(q.request_id, 19)
            && q.outcome is None && q.redirect is None
            && (q.error matches Some(e) && e@ == "not available"@)
    } else {
        r matches UnifiedResponse::ProgramManifest(q) && spec_filled(q.program_id.0, 0) && q.manifest is None
    }
}

fn sample_unified_response(i: usize) -> (res: UnifiedResponse)
    requires
        i < 9,
    ensures
        spec_sample_unified_response(i as int, res),
{
    let object_id = ObjectId(filled(3));
    let chunk_id = ChunkId(filled(5));
    let program_id = ProgramId(filled(0));
    if i == 0 {
        UnifiedResponse::ObjectMetadata(ObjectMetadataResponse { object_id, metadata: Some(sample_object()) })
    } else if i == 1 {
        UnifiedResponse::Manifest(ManifestResponse { manifest: Some(sample_manifest()) })
    } else if i == 2 {
        UnifiedResponse::Chunk(ChunkResponse { chunk_id, data: Some(vec![0x01u8, 0x02u8]) })
    } else if i == 3 {
        UnifiedResponse::ChunkPart(ChunkPartResponse { chunk_id, offset: 0, data: Some(vec![0x04u8]) })
    } else if i == 4 {
        UnifiedResponse::Chunks(BatchChunkResponse { chunks: vec![(chunk_id, Some(vec![0x03u8]))] })
    } else if i == 5 {
        UnifiedResponse::ObjectAvailability(ObjectAvailabilityResponse {
            object_id,
            has_object: true,
            has_manifest: true,
            available_chunks: vec![chunk_id],
            missing_chunks: vec![ChunkId(filled(20))],
            metadata: Some(sample_object()),
        })
    } else if i == 6 {
        UnifiedResponse::FinalizedTransition(FinalizedTransitionResponse { program_id, height: 1, bundle: None })
    } else if i == 7 {
        UnifiedResponse::ExecuteViaLeader(LeaderExecutionResponse {
            request_id: filled(19),
            outcome: None,
            redirect: None,
            error: Some(String::from_str("not available")),
        })
    } else {
        UnifiedResponse::ProgramManifest(ProgramManifestResponse { program_id, manifest: None })
    }
}

/// Whether `m` is the `i`-th sample message: the plain requests, the
/// unified requests, the plain responses, then the unified responses, each
/// with the fields below.
pub open spec fn spec_fingerprint_sample(i: int, m: TransferMessage) -> bool {
    if 12 <= i < 21 {
        m matches TransferMessage::Request(TransferRequest::Unified(u)) && spec_sample_unified_request(i - 12, u)
    } else if 30 <= i < 39 {
        m matches TransferMessage::Response(TransferResponse::Unified(u)) && spec_sample_unified_response(i - 30, u)
    } else if i < 21 {
        m matches TransferMessage::Request(r) && spec_sample_plain_request(i, r)
    } else {
        m matches TransferMessage::Response(r) && spec_sample_plain_response(i, r)
    }
}

/// Whether `r` is the `i`-th sample plain request.
pub open spec fn spec_sample_plain_request(i: int, r: TransferRequest) -> bool {
    if i == 0 {
        r matches TransferRequest::Program(id) && spec_filled(id.0, 0)
    } else if i == 1 {
        r matches TransferRequest::ProgramChunk { id, chunk_idx } && spec_filled(id.0, 0) && chunk_idx == 1
    } else if i == 2 {
        r matches TransferRequest::Blob(id) && spec_filled(id.0, 1)
    } else if i == 3 {
        r matches TransferRequest::BlobChunk { id, chunk_idx } && spec_filled(id.0, 1) && chunk_idx == 1
    } else if i == 4 {
        r matches TransferRequest::Execution(id) && spec_filled(id, 6)
    } else if i == 5 {
        r matches TransferRequest::PushProgram(p) && spec_sample_program(p)
    } else if i == 6 {
        r matches TransferRequest::PushProgramChunk { id, chunk_idx, chunk_data } && spec_filled(id.0, 0)
            && chunk_idx == 1 && chunk_data@ =~= seq![0x01u8, 0x02u8]
    } else if i == 7 {
        r matches TransferRequest::PushBlob(b) && spec_sample_blob_meta(b.meta)
    } else if i == 8 {
        r matches TransferRequest::PushExecution(e) && spec_sample_execution(e)
    } else if i == 9 {
        r matches TransferRequest::Sync(snap) && snap.programs@.len() == 1 && spec_filled(snap.programs@[0].0, 0)
            && snap.executions@.len() == 1 && spec_filled(snap.executions@[0], 6)
    } else if i == 10 {
        r matches TransferRequest::StateRequest(q) && spec_filled(q.program_id.0, 0)
    } else {
        r is InventoryRequest
    }
}

/// Whether `r` is the `i`-th sample plain response (counted among all 39).
pub open spec fn spec_sample_plain_response(i: int, r: TransferResponse) -> bool {
    if i == 21 {
        r matches TransferResponse::Program(Some(p)) && spec_sample_program(p)
    } else if i == 22 {
        r matches TransferResponse::ProgramChunk { id, chunk_idx, chunk_data } && spec_filled(id.0, 0)
            && chunk_idx == 1 && (chunk_data matches Some(d) && d@ =~= seq![0x01u8])
    } else if i == 23 {
        r matches TransferResponse::Blob(Some(b)) && spec_sample_blob_meta(b.meta)
    } else if i == 24 {
        r matches TransferResponse::BlobChunk { id, chunk_idx, shards } && spec_filled(id.0, 1) && chunk_idx == 1
            && (shards matches Some(v) && v@.len() == 2 && v@[0].0 == 0 && v@[0].1@ =~= seq![0x01u8]
                && v@[1].0 == 1 && v@[1].1@ =~= seq![0x02u8])
    } else if i == 25 {
        r matches TransferResponse::Execution(Some(e)) && spec_sample_execution(e)
    } else if i == 26 {
        r matches TransferResponse::Sync(d) && d.missing_programs@.len() == 1 && spec_filled(d.missing_programs@[0].0, 0)
            && d.missing_executions@.len() == 1 && spec_filled(d.missing_executions@[0], 6)
    } else if i == 27 {
        r is Ack
    } else if i == 28 {
        r matches TransferResponse::StateResponse(q) && spec_filled(q.program_id.0, 0) && spec_filled(q.state_root, 13)
            && q.state_entries@.len() == 1 && q.state_entries@[0].0@ =~= seq![0xAAu8]
            && q.state_entries@[0].1@ =~= seq![0xBBu8]
    } else {
        r matches TransferResponse::Inventory(d) && spec_sample_inventory(d)
    }
}

/// One sample of every transfer message, each under its label: the plain
/// requests, the unified requests, the plain responses, then the unified
/// responses.
pub fn fingerprint_samples() -> (res: Vec<(&'static str, TransferMessage)>)
    ensures
        res@.len() == spec_fingerprint_labels().len(),
        forall|i: int| 0 <= i < res@.len() ==> (#[trigger] res@[i]).0@ == spec_fingerprint_labels()[i],
        forall|i: int| 0 <= i < res@.len() ==> spec_fingerprint_sample(i, (#[trigger] res@[i]).1),
{
    let mut out: Vec<(&'static str, TransferMessage)> = Vec::new();
    out.push(("req:program", TransferMessage::Request(TransferRequest::Program(ProgramId(filled(0))))));
    out.push(("req:program_chunk", TransferMessage::Request(TransferRequest::ProgramChunk { id: ProgramId(filled(0)), chunk_idx: 1 })));
    out.push(("req:blob", TransferMessage::Request(TransferRequest::Blob(BlobId(filled(1))))));
    out.push(("req:blob_chunk", TransferMessage::Request(TransferRequest::BlobChunk { id: BlobId(filled(1)), chunk_idx: 1 })));
    out.push(("req:execution", TransferMessage::Request(TransferRequest::Execution(filled(6)))));
    out.push(("req:push_program", TransferMessage::Request(TransferRequest::PushProgram(sample_program()))));
    out.push(("req:push_program_chunk", TransferMessage::Request(TransferRequest::PushProgramChunk {
        id: ProgramId(filled(0)),
        chunk_idx: 1,
        chunk_data: vec![0x01u8, 0x02u8],
    })));
    out.push(("req:push_blob", TransferMessage::Request(TransferRequest::PushBlob(BlobBroadcast { meta: sample_blob_meta() }))));
    out.push(("req:push_execution", TransferMessage::Request(TransferRequest::PushExecution(sample_execution()))));
    out.push(("req:sync", TransferMessage::Request(TransferRequest::Sync(SyncSnapshot {
        programs: vec![ProgramId(filled(0))],
        executions: vec![filled(6)],
    }))));
    out.push(("req:state_request", TransferMessage::Request(TransferRequest::StateRequest(StateRequest { program_id: ProgramId(filled(0)) }))));
    out.push(("req:inventory_request", TransferMessage::Request(TransferRequest::InventoryRequest)));
    proof { assert(out@.len() == 12); }
    let labels_req = [
        "req:unified:0", "req:unified:1", "req:unified:2", "req:unified:3", "req:unified:4",
        "req:unified:5", "req:unified:6", "req:unified:7", "req:unified:8",
    ];
    let mut i: usize = 0;
    while i < 9
        invariant
            i <= 9,
            out@.len() == 12 + i,
            labels_req@ == seq!["req:unified:0", "req:unified:1", "req:unified:2", "req:unified:3", "req:unified:4",
                "req:unified:5", "req:unified:6", "req:unified:7", "req:unified:8"],
            forall|j: int| 0 <= j < out@.len() ==> (#[trigger] out@[j]).0@ == spec_fingerprint_labels()[j],
            forall|j: int| 0 <= j < out@.len() ==> spec_fingerprint_sample(j, (#[trigger] out@[j]).1),
        decreases 9 - i,
    {
        out.push((labels_req[i], TransferMessage::Request(TransferRequest::Unified(sample_unified_request(i)))));
        i = i + 1;
    }
    out.push(("resp:program", TransferMessage::Response(TransferResponse::Program(Some(sample_program())))));
    out.push(("resp:program_chunk", TransferMessage::Response(TransferResponse::ProgramChunk {
        id: ProgramId(filled(0)),
        chunk_idx: 1,
        chunk_data: Some(vec![0x01u8]),
    })));
    out.push(("resp:blob", TransferMessage::Response(TransferResponse::Blob(Some(BlobBroadcast { meta: sample_blob_meta() })))));
    out.push(("resp:blob_chunk", TransferMessage::Response(TransferResponse::BlobChunk {
        id: BlobId(filled(1)),
        chunk_idx: 1,
        shards: Some(vec![(0u8, vec![0x01u8]), (1u8, vec![0x02u8])]),
    })));
    out.push(("resp:execution", TransferMessage::Response(TransferResponse::Execution(Some(sample_execution())))));
    out.push(("resp:sync", TransferMessage::Response(TransferResponse::Sync(SyncDelta {
        missing_programs: vec![ProgramId(filled(0))],
        missing_executions: vec![filled(6)],
    }))));
    out.push(("resp:ack", TransferMessage::Response(TransferResponse::Ack)));
    out.push(("resp:state_response", TransferMessage::Response(TransferResponse::StateResponse(StateResponse {
        program_id: ProgramId(filled(0)),
        state_root: filled(13),
        state_entries: vec![(vec![0xAAu8], vec![0xBBu8])],
    }))));
    out.push(("resp:inventory", TransferMessage::Response(TransferResponse::Inventory(sample_inventory()))));
    let labels_resp = [
        "resp:unified:0", "resp:unified:1", "resp:unified:2", "resp:unified:3", "resp:unified:4",
        "resp:unified:5", "resp:unified:6", "resp:unified:7", "resp:unified:8",
    ];
    let mut k: usize = 0;
    while k < 9
        invariant
            k <= 9,
            out@.len() == 30 + k,
            labels_resp@ == seq!["resp:unified:0", "resp:unified:1", "resp:unified:2", "resp:unified:3", "resp:unified:4",
                "resp:unified:5", "resp:unified:6", "resp:unified:7", "resp:unified:8"],
            forall|j: int| 0 <= j < out@.len() ==> (#[trigger] out@[j]).0@ == spec_fingerprint_labels()[j],
            forall|j: int| 0 <= j < out@.len() ==> spec_fingerprint_sample(j, (#[trigger] out@[j]).1),
        decreases 9 - k,
    {
        out.push((labels_resp[k], TransferMessage::Response(TransferResponse::Unified(sample_unified_response(k)))));
        k = k + 1;
    }
    out
}

/// The bytes hashed into the fingerprint: the protocol name, then each
/// label followed by its encoding, or by `encode-error` where it has none.
pub open spec fn spec_fingerprint_input(entries: Seq<(&str, Option<Vec<u8>>)>) -> Seq<u8>
    decreases entries.len(),
{
    if entries.len() == 0 {
        encode_utf8(TRANSFER_PROTOCOL@)
    } else {
        let prev = spec_fingerprint_input(entries.drop_last());
        let e = entries.last();
        prev + encode_utf8(e.0@) + match e.1 {
            Some(b) => b@,
            None => encode_utf8("encode-error"@),
        }
    }
}

fn append_bytes(buf: &mut Vec<u8>, bytes: &[u8])
    ensures
        final(buf)@ == old(buf)@ + bytes@,
{
    let ghost start = buf@;
    let mut i: usize = 0;
    while i < bytes.len()
        invariant
            i <= bytes@.len(),
            buf@ == start + bytes@.take(i as int),
        decreases bytes@.len() - i,
    {
        buf.push(bytes[i]);
        assert(bytes@.take(i + 1) =~= bytes@.take(i as int).push(bytes@[i as int]));
        assert(buf@ =~= start + bytes@.take(i + 1));
        i = i + 1;
    }
    assert(bytes@.take(bytes@.len() as int) =~= bytes@);
}

/// The transfer codec fingerprint over the labelled encodings of the
/// samples: the BLAKE3 digest of the protocol name, then each label and
/// its encoding (`encode-error` where encoding failed).
pub fn codec_fingerprint(entries: &Vec<(&'static str, Option<Vec<u8>>)>) -> (res: [u8; 32])
    ensures
        res == blake3_hash(spec_fingerprint_input(entries@)),
{
    let mut buf: Vec<u8> = Vec::new();
    append_bytes(&mut buf, TRANSFER_PROTOCOL.as_bytes());
    assert(buf@ =~= spec_fingerprint_input(entries@.take(0)));
    let mut i: usize = 0;
    while i < entries.len()
        invariant
            i <= entries@.len(),
            buf@ == spec_fingerprint_input(entries@.take(i as int)),
        decreases entries@.len() - i,
    {
        let ghost before = buf@;
        assert(entries@.take(i + 1).drop_last() =~= entries@.take(i as int));
        append_bytes(&mut buf, entries[i].0.as_bytes());
        match &entries[i].1 {
            Some(b) => append_bytes(&mut buf, b.as_slice()),
            None => append_bytes(&mut buf, "encode-error".as_bytes()),
        }
        assert(buf@ =~= spec_fingerprint_input(entries@.take(i + 1)));
        i = i + 1;
    }
    assert(entries@.take(entries@.len() as int) =~= entries@);
    hash_bytes(buf.as_slice())
}

} // verus!
