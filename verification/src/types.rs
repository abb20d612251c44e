//! Identifiers of the objects that nodes store, execute and exchange.

use vstd::prelude::*;
use crate::bls::{BlsPublicKey, BlsSignature};

verus! {

/// Identifier of a deployed program (hash of its code and deploy salt).
#[derive(Clone, Copy, Debug, PartialEq, Eq, Hash)]
pub struct ProgramId(pub [u8; 32]);

/// Identifier of a stored blob (hash of its content).
#[derive(Clone, Copy, Debug, PartialEq, Eq, Hash)]
pub struct BlobId(pub [u8; 32]);

/// Identifier of a node (its Ed25519 public key).
#[derive(Clone, Copy, Debug, PartialEq, Eq, Hash)]
pub struct NodeId(pub [u8; 32]);

impl NodeId {
    /// The id of the node whose Ed25519 public key this is: the key's bytes.
    pub fn from_public_key(public_key: &[u8; 32]) -> (res: NodeId)
        ensures
            res.0 == *public_key,
    {
        NodeId(*public_key)
    }
}

/// Identifier of a content-addressed object.
#[derive(Clone, Copy, Debug, PartialEq, Eq, Hash)]
pub struct ObjectId(pub [u8; 32]);

/// Identifier of an object's chunk manifest.
#[derive(Clone, Copy, Debug, PartialEq, Eq, Hash)]
pub struct ManifestId(pub [u8; 32]);

/// Identifier of one chunk of an object.
#[derive(Clone, Copy, Debug, PartialEq, Eq, Hash)]
pub struct ChunkId(pub [u8; 32]);

/// Identifier of an execution receipt.
pub type ReceiptId = [u8; 32];

/// One write to a program's key/value state; no value deletes the key.
#[derive(Clone, Debug, PartialEq, Eq)]
pub struct StateWrite {
    pub key: Vec<u8>,
    pub value: Option<Vec<u8>>,
}

/// The call that an execution ran.
#[derive(Clone, Debug, PartialEq, Eq)]
pub struct ExecutionCall {
    pub entrypoint: String,
    pub calldata: Vec<u8>,
    pub request_id: [u8; 32],
}

/// What an executor reports of one state transition of a program.
#[derive(Clone, Debug, PartialEq, Eq)]
pub struct ExecutionReceipt {
    pub program_id: ProgramId,
    pub height: u64,
    pub state_root_in: [u8; 32],
    pub call: ExecutionCall,
    pub inputs_hash: [u8; 32],
    pub gas_used: u64,
    pub state_root_out: [u8; 32],
    pub write_digest: [u8; 32],
    pub events_hash: [u8; 32],
    pub wasm_code_hash: Option<[u8; 32]>,
    pub wasm_env_hash: [u8; 32],
    pub nonce: u64,
    pub executor: NodeId,
}

/// A member of a program's committee and the weight of its vote.
#[derive(Clone, Debug, PartialEq, Eq)]
pub struct CommitteeMember {
    pub node: NodeId,
    pub weight: u64,
    pub bls_public_key: BlsPublicKey,
}

/// The committee that signs a program's state transitions in an epoch.
#[derive(Clone, Debug, PartialEq, Eq)]
pub struct CommitteeCertificate {
    pub program_id: ProgramId,
    pub epoch: u64,
    pub members: Vec<CommitteeMember>,
    pub threshold: u32,
    pub aggregate_public_key: BlsPublicKey,
    pub signature: Option<BlsSignature>,
}

/// A receipt with the aggregate signature of the committee members named by
/// the bitmap (bit `i % 8` of byte `i / 8` for member `i`).
#[derive(Clone, Debug, PartialEq, Eq)]
pub struct AggregatedReceipt {
    pub receipt: ExecutionReceipt,
    pub committee_epoch: u64,
    pub signer_bitmap: Vec<u8>,
    pub aggregate_signature: BlsSignature,
    pub aggregate_public_key: BlsPublicKey,
}

/// Metadata of a published blob.
#[derive(Clone, Debug, PartialEq, Eq)]
pub struct BlobMetadata {
    pub id: BlobId,
    pub publisher: NodeId,
    pub size: u64,
    pub mime: Option<String>,
    pub chunk_sizes: Vec<u32>,
    pub chunk_hashes: Vec<[u8; 32]>,
    pub merkle_root: [u8; 32],
    pub data_shards: u8,
    pub parity_shards: u8,
}

/// Metadata of a deployed program.
#[derive(Clone, Debug, PartialEq, Eq)]
pub struct ProgramMetadata {
    pub id: ProgramId,
    pub publisher: NodeId,
    pub size: u64,
    pub entrypoint: String,
    pub blob_refs: Vec<BlobId>,
    pub deploy_salt: Vec<u8>,
}

/// One execution of a program on a blob, with its result.
#[derive(Clone, Debug, PartialEq, Eq)]
pub struct ComputeOp {
    pub program_id: ProgramId,
    pub input: BlobId,
    pub output: BlobMetadata,
    pub fuel_used: u64,
    pub state_root: [u8; 32],
    pub state_writes: Vec<StateWrite>,
}

/// What a content-addressed object holds.
#[derive(Clone, Debug, PartialEq, Eq)]
pub enum ObjectType {
    /// A WebAssembly program.
    WasmProgram {
        entrypoint: String,
        wasm_version: Option<String>,
        source_language: Option<String>,
        compiler: Option<String>,
        blob_refs: Vec<ObjectId>,
        deploy_salt: Vec<u8>,
    },
    /// Opaque data with an optional declared MIME type.
    Blob { mime_type: Option<String> },
}

/// A content-addressed object.
#[derive(Clone, Debug, PartialEq, Eq)]
pub struct Object {
    pub id: ObjectId,
    pub object_type: ObjectType,
    pub total_size: u64,
    pub chunk_count: u32,
    pub manifest_id: ManifestId,
    pub publisher: NodeId,
    pub created_at: u64,
}

/// Position of one chunk within an object.
#[derive(Clone, Copy, Debug, PartialEq, Eq)]
pub struct ChunkDescriptor {
    pub chunk_id: ChunkId,
    pub size: u32,
    pub offset: u64,
}

/// The chunk layout of an object.
#[derive(Clone, Debug, PartialEq, Eq)]
pub struct Manifest {
    pub object_id: ObjectId,
    pub content_hash: [u8; 32],
    pub chunks: Vec<ChunkDescriptor>,
    pub version: u32,
}

/// The signed deployment record of a program.
#[derive(Clone, Debug, PartialEq, Eq)]
pub struct ProgramManifest {
    pub program_id: ProgramId,
    pub version: u32,
    pub deployer: NodeId,
    pub wasm_env_hash: [u8; 32],
    pub code_manifest: Option<ManifestId>,
    pub metadata_hash: [u8; 32],
    pub entrypoints: Vec<String>,
    pub initial_state_root: [u8; 32],
    pub dag_parent: Option<[u8; 32]>,
    pub timestamp_ms: u64,
    pub signature: Vec<u8>,
}

/// Announcement of a newly deployed program and the chunks of its code.
#[derive(Clone, Debug, PartialEq, Eq)]
pub struct ProgramAnnouncement {
    pub manifest: ProgramManifest,
    pub chunk_roots: Vec<ChunkId>,
    pub initial_state_chunks: Vec<ChunkId>,
}

} // verus!
