//! Small rules of the consensus engine: which height comes next, who runs a
//! call, in which order leaders are tried, and the stored record of a vote.

use vstd::prelude::*;
use crate::committee::{leader_for_height, spec_leader_for_height};
use crate::hashing::digest_eq;
use crate::merkle::{sparse_merkle_root, spec_sparse_root};
use crate::protocol::StateResponse;
use crate::types::{CommitteeCertificate, CommitteeMember, NodeId, ProgramId, ReceiptId};

verus! {

/// The height after the last committed one: 1 when none is committed, and
/// no further than `u64::MAX`.
pub open spec fn spec_next_height(last_height: Option<u64>) -> u64 {
    match last_height {
        Some(h) => if h == u64::MAX { u64::MAX } else { (h + 1) as u64 },
        None => 1,
    }
}

/// The height a node executes next.
pub fn next_height(last_height: Option<u64>) -> (res: u64)
    ensures
        res == spec_next_height(last_height),
{
    match last_height {
        Some(h) => h.saturating_add(1),
        None => 1,
    }
}

/// What a node does with a request to run a call as leader.
#[derive(Clone, Copy, Debug, PartialEq, Eq)]
pub enum LeaderRoute {
    /// The committee has no leader for the next height.
    NoLeader,
    /// Another node leads the next height.
    Redirect(NodeId),
    /// This node leads the next height: run the call.
    ExecuteHere,
}

/// The route of a leader request at node `local`, given the last committed height.
pub open spec fn spec_route_leader_request(
    committee: CommitteeCertificate,
    last_height: Option<u64>,
    local: NodeId,
) -> LeaderRoute {
    match spec_leader_for_height(committee.members@, spec_next_height(last_height)) {
        None => LeaderRoute::NoLeader,
        Some(leader) => if leader != local { LeaderRoute::Redirect(leader) } else { LeaderRoute::ExecuteHere },
    }
}

/// Whether to run a call here, redirect it to the leader, or refuse it.
pub fn route_leader_request(
    committee: &CommitteeCertificate,
    last_height: Option<u64>,
    local: &NodeId,
) -> (res: LeaderRoute)
    ensures
        res == spec_route_leader_request(*committee, last_height, *local),
{
    let height = next_height(last_height);
    match leader_for_height(committee, height) {
        None => LeaderRoute::NoLeader,
        Some(leader) => if !digest_eq(&leader.0, &local.0) {
            LeaderRoute::Redirect(leader)
        } else {
            LeaderRoute::ExecuteHere
        },
    }
}

/// The nodes of the members other than `hint`, in committee order.
pub open spec fn spec_others(members: Seq<CommitteeMember>, hint: NodeId) -> Seq<NodeId>
    decreases members.len(),
{
    if members.len() == 0 {
        Seq::empty()
    } else {
        let prev = spec_others(members.drop_last(), hint);
        if members.last().node != hint { prev.push(members.last().node) } else { prev }
    }
}

/// The order in which nodes are asked to run a forwarded call: the presumed
/// leader first, then every other member in committee order.
pub fn forward_queue(committee: &CommitteeCertificate, leader_hint: &NodeId) -> (res: Vec<NodeId>)
    ensures
        res@ == seq![*leader_hint] + spec_others(committee.members@, *leader_hint),
{
    let mut queue: Vec<NodeId> = Vec::new();
    queue.push(*leader_hint);
    let mut i: usize = 0;
    while i < committee.members.len()
        invariant
            i <= committee.members@.len(),
            queue@ == seq![*leader_hint] + spec_others(committee.members@.take(i as int), *leader_hint),
        decreases committee.members@.len() - i,
    {
        assert(committee.members@.take(i + 1).drop_last() =~= committee.members@.take(i as int));
        let node = committee.members[i].node;
        if !digest_eq(&node.0, &leader_hint.0) {
            queue.push(node);
            assert(queue@ =~= seq![*leader_hint] + spec_others(committee.members@.take(i + 1), *leader_hint));
        } else {
            assert(queue@ =~= seq![*leader_hint] + spec_others(committee.members@.take(i + 1), *leader_hint));
        }
        i = i + 1;
    }
    assert(committee.members@.take(committee.members@.len() as int) =~= committee.members@);
    queue
}

/// The height to fetch when a peer announces its head: the one after the
/// local height, when the peer is ahead.
pub open spec fn spec_sync_target(head_height: u64, local_height: Option<u64>) -> Option<u64> {
    let local = match local_height { Some(h) => h, None => 0 };
    if head_height <= local {
        None
    } else {
        Some((local + 1) as u64)
    }
}

/// Which height to catch up on after a peer announced its head.
pub fn sync_target(head_height: u64, local_height: Option<u64>) -> (res: Option<u64>)
    ensures
        res == spec_sync_target(head_height, local_height),
{
    let local = match local_height {
        Some(h) => h,
        None => 0,
    };
    if head_height <= local {
        None
    } else {
        Some(local + 1)
    }
}

/// The eight big-endian bytes of `x`.
pub open spec fn spec_be_bytes(x: u64) -> Seq<u8> {
    seq![
        (x >> 56u64) as u8, (x >> 48u64) as u8, (x >> 40u64) as u8, (x >> 32u64) as u8,
        (x >> 24u64) as u8, (x >> 16u64) as u8, (x >> 8u64) as u8, x as u8,
    ]
}

/// The number whose big-endian bytes are the first eight of `b`.
pub open spec fn spec_be_value(b: Seq<u8>) -> u64 {
    ((b[0] as u64) << 56u64) | ((b[1] as u64) << 48u64) | ((b[2] as u64) << 40u64) | ((b[3] as u64) << 32u64)
        | ((b[4] as u64) << 24u64) | ((b[5] as u64) << 16u64) | ((b[6] as u64) << 8u64) | (b[7] as u64)
}

/// Reading back eight big-endian bytes gives the number that was written.
pub proof fn lemma_be_roundtrip(x: u64)
    ensures
        spec_be_value(spec_be_bytes(x)) == x,
{
    let b = spec_be_bytes(x);
    assert(((((x >> 56u64) as u8) as u64) << 56u64) | ((((x >> 48u64) as u8) as u64) << 48u64)
        | ((((x >> 40u64) as u8) as u64) << 40u64) | ((((x >> 32u64) as u8) as u64) << 32u64)
        | ((((x >> 24u64) as u8) as u64) << 24u64) | ((((x >> 16u64) as u8) as u64) << 16u64)
        | ((((x >> 8u64) as u8) as u64) << 8u64) | ((x as u8) as u64) == x) by (bit_vector);
}

fn be_bytes(x: u64) -> (res: [u8; 8])
    ensures
        res@ == spec_be_bytes(x),
{
    let res: [u8; 8] = [
        (x >> 56u64) as u8, (x >> 48u64) as u8, (x >> 40u64) as u8, (x >> 32u64) as u8,
        (x >> 24u64) as u8, (x >> 16u64) as u8, (x >> 8u64) as u8, x as u8,
    ];
    assert(res@ =~= spec_be_bytes(x));
    res
}

/// The stored record of a node's last vote for a program: the height in
/// eight big-endian bytes, then the receipt identifier.
pub fn encode_last_voted(height: u64, receipt_id: &ReceiptId) -> (res: [u8; 40])
    ensures
        res@.subrange(0, 8) == spec_be_bytes(height),
        res@.subrange(8, 40) == receipt_id@,
{
    let hb = be_bytes(height);
    let mut buf = [0u8; 40];
    let mut i: usize = 0;
    while i < 8
        invariant
            i <= 8,
            forall|j: int| 0 <= j < i ==> buf@[j] == hb@[j],
        decreases 8 - i,
    {
        buf[i] = hb[i];
        i = i + 1;
    }
    while i < 40
        invariant
            8 <= i <= 40,
            forall|j: int| 0 <= j < 8 ==> buf@[j] == hb@[j],
            forall|j: int| 8 <= j < i ==> buf@[j] == receipt_id@[j - 8],
        decreases 40 - i,
    {
        buf[i] = receipt_id[i - 8];
        i = i + 1;
    }
    assert(buf@.subrange(0, 8) =~= spec_be_bytes(height));
    assert(buf@.subrange(8, 40) =~= receipt_id@);
    buf
}

/// Why a stored vote record was refused.
#[derive(Clone, Copy, Debug, PartialEq, Eq, Structural)]
pub enum RecordError {
    /// The record is not forty bytes long.
    InvalidLength,
}

/// Read a stored vote record: its height and receipt identifier.
pub fn decode_last_voted(raw: &[u8]) -> (res: Result<(u64, ReceiptId), RecordError>)
    ensures
        raw@.len() != 40 ==> res == Err::<(u64, ReceiptId), RecordError>(RecordError::InvalidLength),
        raw@.len() == 40 ==> (res matches Ok((h, id)) && h == spec_be_value(raw@.subrange(0, 8))
            && id@ == raw@.subrange(8, 40)),
{
    if raw.len() != 40 {
        return Err(RecordError::InvalidLength);
    }
    let height: u64 = ((raw[0] as u64) << 56u64) | ((raw[1] as u64) << 48u64) | ((raw[2] as u64) << 40u64)
        | ((raw[3] as u64) << 32u64) | ((raw[4] as u64) << 24u64) | ((raw[5] as u64) << 16u64)
        | ((raw[6] as u64) << 8u64) | (raw[7] as u64);
    let mut id = [0u8; 32];
    let mut i: usize = 0;
    while i < 32
        invariant
            i <= 32,
            raw@.len() == 40,
            forall|j: int| 0 <= j < i ==> id@[j] == raw@[j + 8],
        decreases 32 - i,
    {
        id[i] = raw[i + 8];
        i = i + 1;
    }
    assert(id@ =~= raw@.subrange(8, 40));
    Ok((height, id))
}

/// A stored vote record reads back as the height and receipt it was written with.
pub proof fn lemma_last_voted_roundtrip(height: u64, receipt_id: ReceiptId, record: Seq<u8>)
    requires
        record.len() == 40,
        record.subrange(0, 8) == spec_be_bytes(height),
        record.subrange(8, 40) == receipt_id@,
    ensures
        spec_be_value(record.subrange(0, 8)) == height,
        record.subrange(8, 40) == receipt_id@,
{
    lemma_be_roundtrip(height);
}

/// The storage key of a finalized transition: the program identifier, then
/// the height in eight big-endian bytes.
pub fn finalized_transition_key(program_id: &ProgramId, height: u64) -> (res: Vec<u8>)
    ensures
        res@ == program_id.0@ + spec_be_bytes(height),
{
    let mut key: Vec<u8> = Vec::with_capacity(40);
    let mut i: usize = 0;
    while i < 32
        invariant
            i <= 32,
            key@ == program_id.0@.take(i as int),
        decreases 32 - i,
    {
        key.push(program_id.0[i]);
        assert(program_id.0@.take(i + 1) =~= program_id.0@.take(i as int).push(program_id.0@[i as int]));
        i = i + 1;
    }
    let hb = be_bytes(height);
    let mut j: usize = 0;
    while j < 8
        invariant
            j <= 8,
            key@ == program_id.0@ + hb@.take(j as int),
            hb@ == spec_be_bytes(height),
        decreases 8 - j,
    {
        key.push(hb[j]);
        assert(hb@.take(j + 1) =~= hb@.take(j as int).push(hb@[j as int]));
        assert(key@ =~= program_id.0@ + hb@.take(j + 1));
        j = j + 1;
    }
    assert(hb@.take(8) =~= hb@);
    assert(program_id.0@.take(32) =~= program_id.0@);
    key
}

/// What a node does with a peer's announced head of a program.
#[derive(Clone, Copy, Debug, PartialEq, Eq, Structural)]
pub enum HeadAction {
    /// The node is not behind.
    Ignore,
    /// The next transition is stored: apply the stored ones.
    ApplyStored,
    /// Ask for the finalized transition at this height.
    RequestNext(u64),
}

/// The action for a head at `head_height`, when the node's last committed
/// height is `local_height` (none counts as 0) and `have_next` tells
/// whether the transition after it is stored.
pub fn head_action(head_height: u64, local_height: Option<u64>, have_next: bool) -> (res: HeadAction)
    ensures
        ({
            let local: u64 = match local_height { Some(h) => h, None => 0 };
            if head_height <= local {
                res == HeadAction::Ignore
            } else if have_next {
                res == HeadAction::ApplyStored
            } else {
                res == HeadAction::RequestNext((local + 1) as u64)
            }
        }),
{
    let local: u64 = match local_height {
        Some(h) => h,
        None => 0,
    };
    if head_height <= local {
        return HeadAction::Ignore;
    }
    if have_next {
        HeadAction::ApplyStored
    } else {
        HeadAction::RequestNext(local + 1)
    }
}

/// What is still missing after the last inventory a peer sent.
#[derive(Clone, Copy, Debug, PartialEq, Eq)]
pub struct SyncGaps {
    /// An inventory has been received.
    pub has_inventory: bool,
    pub missing_programs: usize,
    pub missing_blobs: usize,
    pub missing_execs: usize,
}

impl SyncGaps {
    /// Synced: an inventory came and nothing of it is missing.
    pub fn is_fully_synced(&self) -> (res: bool)
        ensures
            res == (self.has_inventory && self.missing_programs == 0 && self.missing_blobs == 0
                && self.missing_execs == 0),
    {
        self.has_inventory && self.missing_programs == 0 && self.missing_blobs == 0 && self.missing_execs == 0
    }

    /// The missing programs, blobs and executions, once an inventory came.
    pub fn sync_gaps(&self) -> (res: Option<(usize, usize, usize)>)
        ensures
            self.has_inventory ==> res == Some((self.missing_programs, self.missing_blobs, self.missing_execs)),
            !self.has_inventory ==> res is None,
    {
        if !self.has_inventory {
            return None;
        }
        Some((self.missing_programs, self.missing_blobs, self.missing_execs))
    }
}

/// The verdict on a peer's full state of a program.
#[derive(Clone, Copy, Debug, PartialEq, Eq, Structural)]
pub enum StateResponseCheck {
    /// No commitment or manifest of the program is known.
    UnknownProgram,
    /// The response claims another root than the one expected.
    RootMismatch,
    /// The entries do not hash to the expected root.
    EntriesMismatch,
    /// Take the entries.
    Accept,
}

/// The root a program's state should have: its last committed root, else
/// its manifest's initial root.
pub open spec fn spec_expected_root(committed: Option<[u8; 32]>, initial: Option<[u8; 32]>) -> Option<[u8; 32]> {
    match committed {
        Some(r) => Some(r),
        None => initial,
    }
}

/// Check a peer's full state of a program against the root the node
/// expects: the claimed root and the root of the entries must both be it.
pub fn check_state_response(
    response: &StateResponse,
    committed: Option<[u8; 32]>,
    initial: Option<[u8; 32]>,
) -> (res: StateResponseCheck)
    ensures
        res == (match spec_expected_root(committed, initial) {
            None => StateResponseCheck::UnknownProgram,
            Some(expected) => if response.state_root != expected {
                StateResponseCheck::RootMismatch
            } else if spec_sparse_root(response.state_entries@) != expected {
                StateResponseCheck::EntriesMismatch
            } else {
                StateResponseCheck::Accept
            },
        }),
{
    let expected = match committed {
        Some(r) => r,
        None => match initial {
            Some(r) => r,
            None => return StateResponseCheck::UnknownProgram,
        },
    };
    if !digest_eq(&response.state_root, &expected) {
        return StateResponseCheck::RootMismatch;
    }
    let computed = sparse_merkle_root(response.state_entries.as_slice());
    if !digest_eq(&computed, &expected) {
        return StateResponseCheck::EntriesMismatch;
    }
    StateResponseCheck::Accept
}

} // verus!
