//! Publishing a local program: the manifest a node deploys it under and the
//! announcement that lists its code chunks.

use vstd::prelude::*;
use crate::hashing::{blake3_hash, hash_bytes};
use crate::proposal::WASM_ENV_TAG;
use crate::types::{ChunkId, Manifest, NodeId, Object, ObjectType, ProgramAnnouncement, ProgramId, ProgramManifest};
use vstd::utf8::encode_utf8;

verus! {

/// Why a program could not be published.
#[derive(Clone, Copy, Debug, PartialEq, Eq, Structural)]
pub enum IngestError {
    /// The object is not a WebAssembly program.
    NotAProgram,
}

/// The manifest of a program object before it is signed: version 1,
/// deployed by `deployer`, its code under the object's chunk manifest, its
/// metadata identified by the hash of the encoded object type, its only
/// entry point the object's, and no signature yet.
pub fn unsigned_program_manifest(
    object: &Object,
    deployer: NodeId,
    initial_state_root: [u8; 32],
    encoded_object_type: &[u8],
    timestamp_ms: u64,
) -> (res: Result<ProgramManifest, IngestError>)
    ensures
        match object.object_type {
            ObjectType::WasmProgram { entrypoint, .. } => res matches Ok(m) && {
                &&& m.program_id == ProgramId(object.id.0)
                &&& m.version == 1
                &&& m.deployer == deployer
                &&& m.wasm_env_hash == blake3_hash(encode_utf8(WASM_ENV_TAG@))
                &&& m.code_manifest == Some(object.manifest_id)
                &&& m.metadata_hash == blake3_hash(encoded_object_type@)
                &&& m.entrypoints@.len() == 1 && m.entrypoints@[0]@ == entrypoint@
                &&& m.initial_state_root == initial_state_root
                &&& m.dag_parent is None
                &&& m.timestamp_ms == timestamp_ms
                &&& m.signature@.len() == 0
            },
            ObjectType::Blob { .. } => res == Err::<ProgramManifest, IngestError>(IngestError::NotAProgram),
        },
{
    let entrypoint = match &object.object_type {
        ObjectType::WasmProgram { entrypoint, .. } => entrypoint.clone(),
        ObjectType::Blob { .. } => return Err(IngestError::NotAProgram),
    };
    let mut entrypoints: Vec<String> = Vec::new();
    entrypoints.push(entrypoint);
    Ok(ProgramManifest {
        program_id: ProgramId(object.id.0),
        version: 1,
        deployer,
        wasm_env_hash: hash_bytes(WASM_ENV_TAG.as_bytes()),
        code_manifest: Some(object.manifest_id),
        metadata_hash: hash_bytes(encoded_object_type),
        entrypoints,
        initial_state_root,
        dag_parent: None,
        timestamp_ms,
        signature: Vec::new(),
    })
}

/// The announcement of a program: its manifest, the chunks of its code in
/// the order of the object's chunk manifest, and no initial state chunks.
pub fn build_program_announcement(manifest: ProgramManifest, object_manifest: &Manifest) -> (res: ProgramAnnouncement)
    ensures
        res.manifest == manifest,
        res.chunk_roots@.len() == object_manifest.chunks@.len(),
        forall|i: int| 0 <= i < res.chunk_roots@.len() ==> res.chunk_roots@[i] == (#[trigger] object_manifest.chunks@[i]).chunk_id,
        res.initial_state_chunks@.len() == 0,
{
    let mut roots: Vec<ChunkId> = Vec::new();
    let mut i: usize = 0;
    while i < object_manifest.chunks.len()
        invariant
            i <= object_manifest.chunks@.len(),
            roots@.len() == i,
            forall|j: int| 0 <= j < i ==> roots@[j] == (#[trigger] object_manifest.chunks@[j]).chunk_id,
        decreases object_manifest.chunks@.len() - i,
    {
        roots.push(object_manifest.chunks[i].chunk_id);
        i = i + 1;
    }
    ProgramAnnouncement { manifest, chunk_roots: roots, initial_state_chunks: Vec::new() }
}

} // verus!
