//! The DAG node model of the consensus core: what a node publishes and
//! how it refers to earlier nodes.

use vstd::prelude::*;
use crate::gateway::str_eq;
use crate::types::{ComputeOp, NodeId, Object, ObjectId};

verus! {

/// What a DAG node records.
#[derive(Clone, Debug, PartialEq, Eq)]
pub enum Operation {
    PublishObject(Object),
    Compute(ComputeOp),
}

/// A reference from a DAG node to an earlier object or execution.
#[derive(Clone, Copy, Debug, PartialEq, Eq, Hash)]
pub enum DagRef {
    Object(ObjectId),
    Execution(DagId),
}

/// Identifier of a DAG node.
#[derive(Clone, Copy, Debug, PartialEq, Eq, Hash)]
pub struct DagId(pub [u8; 32]);

/// A node of the DAG.
#[derive(Clone, Debug, PartialEq, Eq)]
pub struct DagNode {
    pub id: DagId,
    pub parents: Vec<DagRef>,
    pub op: Operation,
    pub timestamp_ms: u64,
    pub publisher: NodeId,
}

/// Whether blob data is fetched along with blob metadata.
#[derive(Clone, Copy, Debug, PartialEq, Eq, Structural)]
pub enum BlobSyncMode {
    FullData,
    MetadataOnly,
}

/// Settings of the consensus engine.
#[derive(Clone, Copy, Debug)]
pub struct DagConfig {
    pub min_peers: usize,
    pub blob_sync_mode: BlobSyncMode,
}

/// The blob sync mode a command-line flag asks for: metadata only for
/// `metadata`, full data for anything else.
pub fn blob_sync_mode_from_flag(flag: &str) -> (res: BlobSyncMode)
    ensures
        res == (if flag@ == "metadata"@ { BlobSyncMode::MetadataOnly } else { BlobSyncMode::FullData }),
{
    if str_eq(flag, "metadata") {
        BlobSyncMode::MetadataOnly
    } else {
        BlobSyncMode::FullData
    }
}

} // verus!
