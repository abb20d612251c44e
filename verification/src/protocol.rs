//! Messages that nodes exchange: gossip announcements, request/response
//! transfers, and the votes and proposals of the committee protocol.

use vstd::prelude::*;
use crate::bloom::BloomFilter;
use crate::bls::BlsSignature;
use crate::runtime::ExecutionOutcome;
use crate::hashing::digest_eq;
use crate::types::{
    AggregatedReceipt, BlobId, BlobMetadata, ChunkDescriptor, ChunkId, CommitteeCertificate, ComputeOp,
    ExecutionReceipt, Manifest, ManifestId, NodeId, Object, ObjectId, ObjectType, ProgramAnnouncement,
    ProgramId, ProgramManifest, ProgramMetadata, ReceiptId, StateWrite,
};

verus! {

/// Gossip topic of blob announcements.
pub const TOPIC_BLOBS: &'static str = "onvm-blobs";
/// Gossip topic of program announcements.
pub const TOPIC_PROGRAMS: &'static str = "onvm-programs";
/// Gossip topic of the execution DAG.
pub const TOPIC_BLOCKS: &'static str = "onvm-dag";
/// Name of the request/response transfer protocol.
pub const TRANSFER_PROTOCOL: &'static str = "/onvm/transfer/3.0.0";
/// Name of the handshake protocol.
pub const HANDSHAKE_PROTOCOL: &'static str = "/onvm/handshake/1.0.0";

/// Object announcement (metadata only, safe to gossip).
#[derive(Clone, Debug, PartialEq, Eq)]
pub struct ObjectAnnouncement {
    pub object_id: ObjectId,
    pub manifest_id: ManifestId,
    pub total_size: u64,
    pub chunk_count: u32,
    pub providers: Vec<String>,
}

/// Request for the chunk manifest of an object.
#[derive(Clone, Copy, Debug, PartialEq, Eq)]
pub struct ManifestRequest {
    pub object_id: ObjectId,
}

/// The chunk manifest of an object, if the peer has it.
#[derive(Clone, Debug, PartialEq, Eq)]
pub struct ManifestResponse {
    pub manifest: Option<Manifest>,
}

/// Request for one chunk.
#[derive(Clone, Copy, Debug, PartialEq, Eq)]
pub struct ChunkRequest {
    pub chunk_id: ChunkId,
}

/// One chunk, if the peer has it.
#[derive(Clone, Debug, PartialEq, Eq)]
pub struct ChunkResponse {
    pub chunk_id: ChunkId,
    pub data: Option<Vec<u8>>,
}

/// Request for a byte range within a chunk.
#[derive(Clone, Copy, Debug, PartialEq, Eq)]
pub struct ChunkPartRequest {
    pub chunk_id: ChunkId,
    /// Byte offset within the chunk.
    pub offset: u32,
    /// Requested length in bytes.
    pub length: u32,
}

/// A byte range within a chunk.
#[derive(Clone, Debug, PartialEq, Eq)]
pub struct ChunkPartResponse {
    pub chunk_id: ChunkId,
    /// Byte offset within the chunk of this range.
    pub offset: u32,
    pub data: Option<Vec<u8>>,
}

/// Request for several chunks in one round trip.
#[derive(Clone, Debug, PartialEq, Eq)]
pub struct BatchChunkRequest {
    pub chunk_ids: Vec<ChunkId>,
}

/// Several chunks, each if the peer has it.
#[derive(Clone, Debug, PartialEq, Eq)]
pub struct BatchChunkResponse {
    pub chunks: Vec<(ChunkId, Option<Vec<u8>>)>,
}

/// Which parts of an object a peer holds.
#[derive(Clone, Copy, Debug, PartialEq, Eq)]
pub struct ObjectAvailabilityRequest {
    pub object_id: ObjectId,
}

/// The parts of an object that a peer holds.
#[derive(Clone, Debug, PartialEq, Eq)]
pub struct ObjectAvailabilityResponse {
    pub object_id: ObjectId,
    pub has_object: bool,
    pub has_manifest: bool,
    pub available_chunks: Vec<ChunkId>,
    pub missing_chunks: Vec<ChunkId>,
    pub metadata: Option<Object>,
}

/// Request for the metadata of an object.
#[derive(Clone, Copy, Debug, PartialEq, Eq)]
pub struct ObjectMetadataRequest {
    pub object_id: ObjectId,
}

/// The metadata of an object, if the peer knows it.
#[derive(Clone, Debug, PartialEq, Eq)]
pub struct ObjectMetadataResponse {
    pub object_id: ObjectId,
    pub metadata: Option<Object>,
}

/// Request for the deployment record of a program.
#[derive(Clone, Copy, Debug, PartialEq, Eq)]
pub struct ProgramManifestRequest {
    pub program_id: ProgramId,
}

/// The deployment record of a program, if the peer knows it.
#[derive(Clone, Debug, PartialEq, Eq)]
pub struct ProgramManifestResponse {
    pub program_id: ProgramId,
    pub manifest: Option<ProgramManifest>,
}

/// A finalized transition: the signed receipt, its committee and its writes.
#[derive(Clone, Debug, PartialEq, Eq)]
pub struct AggregatedReceiptBundle {
    pub receipt: AggregatedReceipt,
    pub committee: CommitteeCertificate,
    pub state_writes: Vec<StateWrite>,
}

/// The leader's proposal of a state transition.
#[derive(Clone, Debug, PartialEq, Eq)]
pub struct StateTransitionProposal {
    pub receipt: ExecutionReceipt,
    pub committee_epoch: u64,
    pub state_writes: Vec<StateWrite>,
}

/// A committee member's signature on a proposed receipt.
#[derive(Clone, Debug, PartialEq, Eq)]
pub struct StateTransitionVote {
    pub program_id: ProgramId,
    pub committee_epoch: u64,
    pub receipt_id: ReceiptId,
    pub signer: NodeId,
    pub signature: BlsSignature,
}

/// The latest committed height and root of a program at a peer.
#[derive(Clone, Copy, Debug, PartialEq, Eq)]
pub struct ProgramHead {
    pub program_id: ProgramId,
    pub height: u64,
    pub state_root: [u8; 32],
}

/// Request for the finalized transition of a program at a height.
#[derive(Clone, Copy, Debug, PartialEq, Eq)]
pub struct FinalizedTransitionRequest {
    pub program_id: ProgramId,
    pub height: u64,
}

/// The finalized transition at a height, if the peer has it.
#[derive(Clone, Debug, PartialEq, Eq)]
pub struct FinalizedTransitionResponse {
    pub program_id: ProgramId,
    pub height: u64,
    pub bundle: Option<AggregatedReceiptBundle>,
}

/// Request that the leader run a call.
#[derive(Clone, Debug, PartialEq, Eq)]
pub struct LeaderExecutionRequest {
    pub request_id: [u8; 32],
    pub program_id: ProgramId,
    pub calldata: Vec<u8>,
}

/// The leader's answer: an outcome, a redirect to the leader, or an error.
#[derive(Clone, Debug, PartialEq, Eq)]
pub struct LeaderExecutionResponse {
    pub request_id: [u8; 32],
    pub outcome: Option<ExecutionOutcome>,
    pub redirect: Option<NodeId>,
    pub error: Option<String>,
}

/// Messages of the gossip protocol.
#[derive(Clone, Debug, PartialEq, Eq)]
pub enum UnifiedProtocolMessage {
    ObjectAnnouncement(ObjectAnnouncement),
    ObjectMetadata(Object),
    ObjectMetadataRequest(ObjectMetadataRequest),
    ManifestRequest(ManifestRequest),
    ManifestResponse(Manifest),
    ProgramAnnouncement(ProgramAnnouncement),
    AggregatedReceipt(AggregatedReceiptBundle),
    StateTransitionProposal(StateTransitionProposal),
    StateTransitionVote(StateTransitionVote),
    ProgramHead(ProgramHead),
}

/// Requests of the request/response protocol.
#[derive(Clone, Debug, PartialEq, Eq)]
pub enum UnifiedRequest {
    GetManifest(ManifestRequest),
    GetChunk(ChunkRequest),
    GetChunkPart(ChunkPartRequest),
    GetChunks(BatchChunkRequest),
    GetObjectAvailability(ObjectAvailabilityRequest),
    GetObjectMetadata(ObjectMetadataRequest),
    GetFinalizedTransition(FinalizedTransitionRequest),
    ExecuteViaLeader(LeaderExecutionRequest),
    GetProgramManifest(ProgramManifestRequest),
}

/// Responses of the request/response protocol.
#[derive(Clone, Debug, PartialEq, Eq)]
pub enum UnifiedResponse {
    Manifest(ManifestResponse),
    Chunk(ChunkResponse),
    ChunkPart(ChunkPartResponse),
    Chunks(BatchChunkResponse),
    ObjectAvailability(ObjectAvailabilityResponse),
    ObjectMetadata(ObjectMetadataResponse),
    FinalizedTransition(FinalizedTransitionResponse),
    ExecuteViaLeader(LeaderExecutionResponse),
    ProgramManifest(ProgramManifestResponse),
}

/// First message on a new connection: versions and codec fingerprint.
#[derive(Clone, Debug, PartialEq, Eq)]
pub struct HandshakeRequest {
    pub node_version: String,
    pub transfer_protocol: String,
    pub transfer_codec_fingerprint: [u8; 32],
}

/// Answer to a handshake.
#[derive(Clone, Debug, PartialEq, Eq)]
pub struct HandshakeResponse {
    pub ok: bool,
    pub node_version: String,
    pub transfer_protocol: String,
    pub transfer_codec_fingerprint: [u8; 32],
    pub message: Option<String>,
}

/// What a provider record in the DHT points at.
#[derive(Clone, Copy, Debug, PartialEq, Eq, Structural)]
pub enum ProviderKind {
    Program,
    Blob,
}

/// A gossip message with the publisher's Ed25519 signature over its payload.
#[derive(Clone, Debug, PartialEq, Eq)]
pub struct SignedNetworkMessage {
    pub payload: Vec<u8>,
    pub publisher: NodeId,
    pub public_key: [u8; 32],
    pub signature: Vec<u8>,
}

/// Direct transfer requests.
#[derive(Clone, Debug, PartialEq, Eq)]
pub enum TransferRequest {
    Program(ProgramId),
    ProgramChunk { id: ProgramId, chunk_idx: usize },
    Blob(BlobId),
    BlobChunk { id: BlobId, chunk_idx: u32 },
    Execution([u8; 32]),
    PushProgram(ProgramBroadcast),
    PushProgramChunk { id: ProgramId, chunk_idx: usize, chunk_data: Vec<u8> },
    PushBlob(BlobBroadcast),
    PushExecution(ExecutionBroadcast),
    Sync(SyncSnapshot),
    Unified(UnifiedRequest),
    StateRequest(StateRequest),
    InventoryRequest,
}

/// Direct transfer responses.
#[derive(Clone, Debug, PartialEq, Eq)]
pub enum TransferResponse {
    Program(Option<ProgramBroadcast>),
    ProgramChunk { id: ProgramId, chunk_idx: usize, chunk_data: Option<Vec<u8>> },
    Blob(Option<BlobBroadcast>),
    BlobChunk { id: BlobId, chunk_idx: u32, shards: Option<Vec<(u8, Vec<u8>)>> },
    Execution(Option<ExecutionBroadcast>),
    Sync(SyncDelta),
    Ack,
    Unified(UnifiedResponse),
    StateResponse(StateResponse),
    Inventory(DagInventory),
}

/// The programs and executions a node knows.
#[derive(Clone, Debug, PartialEq, Eq)]
pub struct SyncSnapshot {
    pub programs: Vec<ProgramId>,
    pub executions: Vec<[u8; 32]>,
}

/// The programs and executions a peer lacks.
#[derive(Clone, Debug, PartialEq, Eq)]
pub struct SyncDelta {
    pub missing_programs: Vec<ProgramId>,
    pub missing_executions: Vec<[u8; 32]>,
}

/// A blob's metadata, pushed to peers.
#[derive(Clone, Debug, PartialEq, Eq)]
pub struct BlobBroadcast {
    pub meta: BlobMetadata,
}

/// A blob's metadata and where its data can be had.
#[derive(Clone, Debug, PartialEq, Eq)]
pub struct BlobAdvertisement {
    pub meta: BlobMetadata,
    pub has_data: bool,
    pub locations: Vec<String>,
}

/// A program's metadata and code.
#[derive(Clone, Debug, PartialEq, Eq)]
pub struct ProgramBroadcast {
    pub meta: ProgramMetadata,
    pub wasm: Vec<u8>,
}

/// An execution and its place in the DAG.
#[derive(Clone, Debug, PartialEq, Eq)]
pub struct ExecutionBroadcast {
    pub dag_id: [u8; 32],
    pub op: ComputeOp,
}

/// State writes of an execution, pushed to peers.
#[derive(Clone, Debug, PartialEq, Eq)]
pub struct StateSyncMessage {
    pub program_id: ProgramId,
    pub state_writes: Vec<StateWrite>,
    pub state_root: [u8; 32],
    pub executor_node: NodeId,
    pub timestamp_ms: u64,
}

/// Request for the whole state of a program.
#[derive(Clone, Copy, Debug, PartialEq, Eq)]
pub struct StateRequest {
    pub program_id: ProgramId,
}

/// The whole state of a program and its root.
#[derive(Clone, Debug, PartialEq, Eq)]
pub struct StateResponse {
    pub program_id: ProgramId,
    pub state_root: [u8; 32],
    pub state_entries: Vec<(Vec<u8>, Vec<u8>)>,
}

/// One blob in an inventory.
#[derive(Clone, Debug, PartialEq, Eq)]
pub struct BlobInventoryEntry {
    pub id: [u8; 32],
    pub has_data: bool,
    pub locations: Vec<String>,
}

/// What a node holds: programs (listed or as a Bloom filter), blobs, executions.
#[derive(Clone, Debug, PartialEq, Eq)]
pub struct DagInventory {
    pub programs: Vec<[u8; 32]>,
    pub program_bloom: Option<BloomFilter>,
    pub blobs: Vec<BlobInventoryEntry>,
    pub executions: Vec<[u8; 32]>,
}

/// Request for blobs by identifier.
#[derive(Clone, Debug, PartialEq, Eq)]
pub struct BlobRequest {
    pub ids: Vec<[u8; 32]>,
    pub want_data: bool,
}

/// Request for the programs not in the sender's Bloom filter.
#[derive(Clone, Debug, PartialEq, Eq)]
pub struct ProgramSyncRequest {
    pub bloom: BloomFilter,
}

impl Default for BlobInventoryEntry {
    fn default() -> (res: Self)
        ensures
            forall|i: int| 0 <= i < 32 ==> res.id[i] == 0u8,
            !res.has_data,
            res.locations@.len() == 0,
    {
        BlobInventoryEntry { id: [0u8; 32], has_data: false, locations: Vec::new() }
    }
}

impl Default for DagInventory {
    fn default() -> (res: Self)
        ensures
            res.programs@.len() == 0,
            res.program_bloom is None,
            res.blobs@.len() == 0,
            res.executions@.len() == 0,
    {
        DagInventory { programs: Vec::new(), program_bloom: None, blobs: Vec::new(), executions: Vec::new() }
    }
}

/// The chunks of a manifest that are held: those not missing, in the
/// manifest's order.
pub open spec fn spec_available(chunks: Seq<ChunkDescriptor>, missing: Seq<ChunkId>) -> Seq<ChunkId>
    decreases chunks.len(),
{
    if chunks.len() == 0 {
        Seq::empty()
    } else {
        let prev = spec_available(chunks.drop_last(), missing);
        let c = chunks.last().chunk_id;
        if missing.contains(c) { prev } else { prev.push(c) }
    }
}

fn chunk_listed(list: &Vec<ChunkId>, c: &ChunkId) -> (res: bool)
    ensures
        res == list@.contains(*c),
{
    let mut i: usize = 0;
    while i < list.len()
        invariant
            i <= list@.len(),
            forall|j: int| 0 <= j < i ==> list@[j] != *c,
        decreases list@.len() - i,
    {
        if digest_eq(&list[i].0, &c.0) {
            assert(list@[i as int] == *c);
            return true;
        }
        i = i + 1;
    }
    false
}

/// The chunks of `manifest` that are not listed as missing.
pub fn available_chunks(manifest: &Manifest, missing: &Vec<ChunkId>) -> (res: Vec<ChunkId>)
    ensures
        res@ == spec_available(manifest.chunks@, missing@),
{
    let mut out: Vec<ChunkId> = Vec::new();
    let mut i: usize = 0;
    while i < manifest.chunks.len()
        invariant
            i <= manifest.chunks@.len(),
            out@ == spec_available(manifest.chunks@.take(i as int), missing@),
        decreases manifest.chunks@.len() - i,
    {
        assert(manifest.chunks@.take(i + 1).drop_last() =~= manifest.chunks@.take(i as int));
        let c = manifest.chunks[i].chunk_id;
        if !chunk_listed(missing, &c) {
            out.push(c);
        }
        i = i + 1;
    }
    assert(manifest.chunks@.take(manifest.chunks@.len() as int) =~= manifest.chunks@);
    out
}

/// The answer to an availability request: whether the object is complete,
/// whether its manifest is known, and with the manifest, which of its
/// chunks are held and which are missing (none of either without it).
pub fn availability_response(
    object_id: ObjectId,
    has_object: bool,
    manifest: Option<Manifest>,
    missing: Vec<ChunkId>,
    metadata: Option<Object>,
) -> (res: ObjectAvailabilityResponse)
    ensures
        res.object_id == object_id,
        res.has_object == has_object,
        res.has_manifest == manifest is Some,
        res.metadata == metadata,
        match manifest {
            Some(m) => res.available_chunks@ == spec_available(m.chunks@, missing@) && res.missing_chunks@ == missing@,
            None => res.available_chunks@.len() == 0 && res.missing_chunks@.len() == 0,
        },
{
    let has_manifest = manifest.is_some();
    let (available_chunks, missing_chunks) = match &manifest {
        Some(m) => (available_chunks(m, &missing), missing),
        None => (Vec::new(), Vec::new()),
    };
    ObjectAvailabilityResponse { object_id, has_object, has_manifest, available_chunks, missing_chunks, metadata }
}

/// The kind of provider record under which an object is found.
pub fn provider_kind_for(object_type: &ObjectType) -> (res: ProviderKind)
    ensures
        res == (match *object_type {
            ObjectType::WasmProgram { .. } => ProviderKind::Program,
            ObjectType::Blob { .. } => ProviderKind::Blob,
        }),
{
    match object_type {
        ObjectType::WasmProgram { .. } => ProviderKind::Program,
        ObjectType::Blob { .. } => ProviderKind::Blob,
    }
}

/// What a node does with announced object metadata.
#[derive(Clone, Copy, Debug, PartialEq, Eq, Structural)]
pub struct MetadataPlan {
    /// Store the metadata: it is new.
    pub store: bool,
    /// Fetch the object's chunks: it is new and not complete here.
    pub fetch: bool,
}

/// The plan for announced object metadata: new metadata is stored, and a
/// new object that is not complete here is fetched.
pub fn plan_object_metadata(already_have: bool, is_complete: bool) -> (res: MetadataPlan)
    ensures
        res.store == !already_have,
        res.fetch == (!already_have && !is_complete),
{
    MetadataPlan { store: !already_have, fetch: !already_have && !is_complete }
}

/// The manifest kept for an object when a peer sends one for it unasked: a
/// manifest already stored for the object is kept, and the incoming one is
/// stored only when there is none.
pub fn manifest_to_keep(stored: Option<Manifest>, incoming: Manifest) -> (res: Manifest)
    ensures
        res == (match stored {
            Some(m) => m,
            None => incoming,
        }),
{
    match stored {
        Some(m) => m,
        None => incoming,
    }
}

} // verus!
