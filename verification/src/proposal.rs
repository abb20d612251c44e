//! The checks a committee member makes before it signs a proposed state
//! transition, and the state root that a list of writes leads to.

use vstd::prelude::*;
use crate::merkle::{spec_dedup, spec_pair_leaf, spec_sparse_proof, spec_sparse_root, spec_verify_proof,
    sparse_merkle_root, lemma_sparse_proof_verifies};
use crate::bls::BlsPublicKey;
use crate::committee::{spec_leader_for_height, leader_for_height};
use crate::hashing::{blake3_hash, digest_eq, hash_bytes};
use crate::protocol::{AggregatedReceiptBundle, StateTransitionProposal};
use crate::runtime::ExecutionOutcome;
use crate::types::{CommitteeCertificate, CommitteeMember, ExecutionCall, ExecutionReceipt, NodeId, ProgramId, ReceiptId, StateWrite};
use vstd::utf8::encode_utf8;

verus! {

/// Keys and values of a list of key/value pairs, as byte strings.
pub open spec fn spec_entries(pairs: Seq<(Vec<u8>, Vec<u8>)>) -> Seq<(Seq<u8>, Seq<u8>)> {
    pairs.map_values(|p: (Vec<u8>, Vec<u8>)| (p.0@, p.1@))
}

/// Whether a pair is for a key other than `key`.
pub open spec fn other_key(key: Seq<u8>) -> spec_fn((Vec<u8>, Vec<u8>)) -> bool {
    |p: (Vec<u8>, Vec<u8>)| p.0@ != key
}

/// The state after one write: every entry for the written key goes, and the
/// new value, if the write has one, is added at the end.
pub open spec fn spec_apply_write(pairs: Seq<(Vec<u8>, Vec<u8>)>, write: StateWrite) -> Seq<(Vec<u8>, Vec<u8>)> {
    let kept = pairs.filter(other_key(write.key@));
    match write.value {
        Some(v) => kept.push((write.key, v)),
        None => kept,
    }
}

/// The state after the writes, applied in order.
pub open spec fn spec_apply_writes(pairs: Seq<(Vec<u8>, Vec<u8>)>, writes: Seq<StateWrite>) -> Seq<(Vec<u8>, Vec<u8>)>
    decreases writes.len(),
{
    if writes.len() == 0 {
        pairs
    } else {
        spec_apply_write(spec_apply_writes(pairs, writes.drop_last()), writes.last())
    }
}

/// The sparse root depends on the bytes of the keys and values alone.
proof fn lemma_dedup_by_entries(a: Seq<(Vec<u8>, Vec<u8>)>, b: Seq<(Vec<u8>, Vec<u8>)>)
    requires
        spec_entries(a) == spec_entries(b),
    ensures
        spec_dedup(a) == spec_dedup(b),
    decreases a.len(),
{
    assert(a.len() == spec_entries(a).len());
    assert(b.len() == spec_entries(b).len());
    if a.len() > 0 {
        assert(spec_entries(a.drop_last()) =~= spec_entries(a).drop_last());
        assert(spec_entries(b.drop_last()) =~= spec_entries(b).drop_last());
        lemma_dedup_by_entries(a.drop_last(), b.drop_last());
        assert(spec_entries(a)[a.len() - 1] == spec_entries(b)[a.len() - 1]);
        assert(spec_pair_leaf(a.last()) == spec_pair_leaf(b.last()));
    }
}

/// A copy of the pairs whose keys differ from `key`, in order.
fn without_key(pairs: &Vec<(Vec<u8>, Vec<u8>)>, key: &Vec<u8>) -> (res: Vec<(Vec<u8>, Vec<u8>)>)
    ensures
        spec_entries(res@) == spec_entries(pairs@.filter(other_key(key@))),
{
    let ghost keep = other_key(key@);
    let mut out: Vec<(Vec<u8>, Vec<u8>)> = Vec::new();
    let mut i: usize = 0;
    while i < pairs.len()
        invariant
            i <= pairs@.len(),
            keep == other_key(key@),
            spec_entries(out@) == spec_entries(pairs@.take(i as int).filter(keep)),
        decreases pairs@.len() - i,
    {
        let ghost prev = pairs@.take(i as int);
        assert(pairs@.take(i + 1) =~= prev.push(pairs@[i as int]));
        assert(pairs@.take(i + 1).filter(keep) == {
            let f = prev.filter(keep);
            if keep(pairs@[i as int]) { f.push(pairs@[i as int]) } else { f }
        }) by {
            prev.lemma_filter_push(pairs@[i as int], keep);
        }
        if !bytes_eq(&pairs[i].0, key) {
            let k = pairs[i].0.clone();
            let v = pairs[i].1.clone();
            let ghost before = out@;
            out.push((k, v));
            assert(spec_entries(out@) =~= spec_entries(before).push((pairs@[i as int].0@, pairs@[i as int].1@)));
            assert(spec_entries(pairs@.take(i + 1).filter(keep)) =~= spec_entries(prev.filter(keep)).push(
                (pairs@[i as int].0@, pairs@[i as int].1@),
            ));
        }
        i = i + 1;
    }
    assert(pairs@.take(pairs@.len() as int) =~= pairs@);
    out
}

/// Byte-wise equality of two byte strings.
pub fn bytes_eq(a: &Vec<u8>, b: &Vec<u8>) -> (res: bool)
    ensures
        res == (a@ == b@),
{
    if a.len() != b.len() {
        return false;
    }
    let mut i: usize = 0;
    while i < a.len()
        invariant
            i <= a@.len(),
            a@.len() == b@.len(),
            forall|j: int| 0 <= j < i ==> a@[j] == b@[j],
        decreases a@.len() - i,
    {
        if a[i] != b[i] {
            return false;
        }
        i = i + 1;
    }
    assert(a@ =~= b@);
    true
}

/// The sparse Merkle root of a program's state after applying `writes` to
/// the key/value pairs it holds now (a write without a value deletes).
pub fn compute_root_after_writes(current: &Vec<(Vec<u8>, Vec<u8>)>, writes: &[StateWrite]) -> (res: [u8; 32])
    ensures
        res == spec_sparse_root(spec_apply_writes(current@, writes@)),
{
    let mut state: Vec<(Vec<u8>, Vec<u8>)> = Vec::new();
    let mut i: usize = 0;
    while i < current.len()
        invariant
            i <= current@.len(),
            spec_entries(state@) == spec_entries(current@.take(i as int)),
        decreases current@.len() - i,
    {
        state.push((current[i].0.clone(), current[i].1.clone()));
        assert(spec_entries(current@.take(i + 1)) =~= spec_entries(current@.take(i as int)).push(
            (current@[i as int].0@, current@[i as int].1@),
        ));
        i = i + 1;
    }
    assert(current@.take(current@.len() as int) =~= current@);
    let mut w: usize = 0;
    while w < writes.len()
        invariant
            w <= writes@.len(),
            spec_entries(state@) == spec_entries(spec_apply_writes(current@, writes@.take(w as int))),
        decreases writes@.len() - w,
    {
        let write = &writes[w];
        let ghost prior = spec_apply_writes(current@, writes@.take(w as int));
        assert(writes@.take(w + 1).drop_last() =~= writes@.take(w as int));
        let mut next = without_key(&state, &write.key);
        proof {
            lemma_filter_entries(state@, prior, write.key@);
        }
        match &write.value {
            Some(v) => {
                let ghost before = next@;
                next.push((write.key.clone(), v.clone()));
                assert(spec_entries(next@) =~= spec_entries(before).push((write.key@, v@)));
            },
            None => {},
        }
        proof {
            let kept = prior.filter(other_key(write.key@));
            assert(writes@.take(w + 1).last() == *write);
            assert(spec_apply_writes(current@, writes@.take(w + 1)) == spec_apply_write(prior, *write));
            if write.value is Some {
                let v = write.value->0;
                assert(spec_apply_write(prior, *write) == kept.push((write.key, v)));
                assert(spec_entries(kept.push((write.key, v))) =~= spec_entries(kept).push((write.key@, v@)));
            } else {
                assert(spec_apply_write(prior, *write) == kept);
            }
            assert(spec_entries(next@) == spec_entries(spec_apply_writes(current@, writes@.take(w + 1))));
        }
        state = next;
        w = w + 1;
    }
    assert(writes@.take(writes@.len() as int) =~= writes@);
    let root = sparse_merkle_root(state.as_slice());
    proof {
        lemma_dedup_by_entries(state@, spec_apply_writes(current@, writes@));
    }
    root
}

/// Filtering by key keeps lists with the same entries alike.
proof fn lemma_filter_entries(a: Seq<(Vec<u8>, Vec<u8>)>, b: Seq<(Vec<u8>, Vec<u8>)>, key: Seq<u8>)
    requires
        spec_entries(a) == spec_entries(b),
    ensures
        spec_entries(a.filter(other_key(key))) == spec_entries(b.filter(other_key(key))),
    decreases a.len(),
{
    let keep = other_key(key);
    assert(a.len() == spec_entries(a).len());
    assert(b.len() == spec_entries(b).len());
    if a.len() > 0 {
        assert(spec_entries(a.drop_last()) =~= spec_entries(a).drop_last());
        assert(spec_entries(b.drop_last()) =~= spec_entries(b).drop_last());
        lemma_filter_entries(a.drop_last(), b.drop_last(), key);
        assert(a.drop_last().push(a.last()) =~= a);
        assert(b.drop_last().push(b.last()) =~= b);
        a.drop_last().lemma_filter_push(a.last(), keep);
        b.drop_last().lemma_filter_push(b.last(), keep);
        assert(spec_entries(a)[a.len() - 1] == spec_entries(b)[a.len() - 1]);
        let fa = a.drop_last().filter(keep);
        let fb = b.drop_last().filter(keep);
        if keep(a.last()) {
            assert(spec_entries(fa.push(a.last())) =~= spec_entries(fa).push((a.last().0@, a.last().1@)));
            assert(spec_entries(fb.push(b.last())) =~= spec_entries(fb).push((b.last().0@, b.last().1@)));
        }
    } else {
        assert(a.filter(keep) =~= Seq::<(Vec<u8>, Vec<u8>)>::empty());
        assert(b.filter(keep) =~= Seq::<(Vec<u8>, Vec<u8>)>::empty());
    }
}

/// A value just written can be proven: after writes whose last one sets
/// `key` to `value`, the inclusion proof for `key` over the new state
/// verifies `value` under the new state's root.
pub proof fn lemma_written_value_provable(current: Seq<(Vec<u8>, Vec<u8>)>, writes: Seq<StateWrite>)
    requires
        writes.len() > 0,
        writes.last().value is Some,
    ensures
        ({
            let state = spec_apply_writes(current, writes);
            spec_verify_proof(
                writes.last().key@,
                writes.last().value->0@,
                spec_sparse_proof(state, writes.last().key@),
                spec_sparse_root(state),
            )
        }),
{
    let state = spec_apply_writes(current, writes);
    let j = state.len() - 1;
    assert(state[j] == (writes.last().key, writes.last().value->0));
    lemma_sparse_proof_verifies(state, j);
}

/// Why a proposal is not voted on, or that it may be executed.
#[derive(Clone, Copy, Debug, PartialEq, Eq, Structural)]
pub enum ProposalCheck {
    /// The proposal names another committee epoch.
    EpochMismatch,
    /// The committee has no leader for the proposed height.
    NoLeader,
    /// The receipt was not produced by the leader of its height.
    NotFromLeader,
    /// This node is not a committee member.
    NotAMember,
    /// The committee lists another BLS key for this node.
    KeyMismatch,
    /// The height is not the one after the last committed height.
    UnexpectedHeight,
    /// The receipt starts from another state root than the current one.
    StateRootMismatch,
    /// This node already voted for another receipt at this height.
    ConflictingVote,
    /// This node already voted at a later height.
    StaleHeight,
    /// The receipt's input hash is not the hash of its call data.
    InputsHashMismatch,
    /// Every check passed: run the call and compare.
    Execute,
}

/// The position of the first member with node `node`, if any.
pub open spec fn spec_member_index(members: Seq<CommitteeMember>, node: NodeId) -> Option<int>
    decreases members.len(),
{
    if members.len() == 0 {
        None
    } else if members[0].node == node {
        Some(0)
    } else {
        match spec_member_index(members.drop_first(), node) {
            Some(i) => Some(i + 1),
            None => None,
        }
    }
}

/// The height after the last committed one (1 when none is committed).
pub open spec fn spec_expected_height(last_height: Option<u64>) -> int {
    match last_height {
        Some(h) => h + 1,
        None => 1,
    }
}

/// The verdict on a proposal before it is executed, for a node with
/// identity `local` and BLS key `local_key`, whose last committed height is
/// `last_height`, whose state root is `current_root`, and whose last vote
/// for the program, if any, is `last_voted`; `receipt_id` identifies the
/// proposed receipt.
pub open spec fn spec_check_proposal(
    proposal: StateTransitionProposal,
    committee: CommitteeCertificate,
    local: NodeId,
    local_key: BlsPublicKey,
    last_height: Option<u64>,
    current_root: [u8; 32],
    receipt_id: ReceiptId,
    last_voted: Option<(u64, ReceiptId)>,
) -> ProposalCheck {
    let receipt = proposal.receipt;
    let members = committee.members@;
    if proposal.committee_epoch != committee.epoch {
        ProposalCheck::EpochMismatch
    } else if spec_leader_for_height(members, receipt.height) is None {
        ProposalCheck::NoLeader
    } else if receipt.executor != spec_leader_for_height(members, receipt.height)->0 {
        ProposalCheck::NotFromLeader
    } else if spec_member_index(members, local) is None {
        ProposalCheck::NotAMember
    } else if members[spec_member_index(members, local)->0].bls_public_key != local_key {
        ProposalCheck::KeyMismatch
    } else if receipt.height != spec_expected_height(last_height) {
        ProposalCheck::UnexpectedHeight
    } else if receipt.state_root_in != current_root {
        ProposalCheck::StateRootMismatch
    } else if (match last_voted {
        Some((h, r)) => h == receipt.height && r != receipt_id,
        None => false,
    }) {
        ProposalCheck::ConflictingVote
    } else if (match last_voted {
        Some((h, _)) => h > receipt.height,
        None => false,
    }) {
        ProposalCheck::StaleHeight
    } else if blake3_hash(receipt.call.calldata@) != receipt.inputs_hash {
        ProposalCheck::InputsHashMismatch
    } else {
        ProposalCheck::Execute
    }
}

fn member_index(members: &Vec<CommitteeMember>, node: &NodeId) -> (res: Option<usize>)
    ensures
        match res {
            Some(i) => spec_member_index(members@, *node) == Some(i as int),
            None => spec_member_index(members@, *node) is None,
        },
        res matches Some(i) ==> i < members@.len(),
{
    let mut i: usize = 0;
    assert(members@.skip(0) =~= members@);
    while i < members.len()
        invariant
            i <= members@.len(),
            spec_member_index(members@, *node) == match spec_member_index(members@.skip(i as int), *node) {
                Some(j) => Some(j + i),
                None => None::<int>,
            },
        decreases members@.len() - i,
    {
        assert(members@.skip(i as int).drop_first() =~= members@.skip(i + 1));
        assert(members@.skip(i as int)[0] == members@[i as int]);
        if digest_eq(&members[i].node.0, &node.0) {
            return Some(i);
        }
        i = i + 1;
    }
    None
}

/// The checks a member makes on a proposal before it runs the call.
pub fn check_proposal(
    proposal: &StateTransitionProposal,
    committee: &CommitteeCertificate,
    local: &NodeId,
    local_key: &BlsPublicKey,
    last_height: Option<u64>,
    current_root: &[u8; 32],
    receipt_id: &ReceiptId,
    last_voted: Option<(u64, ReceiptId)>,
) -> (res: ProposalCheck)
    ensures
        res == spec_check_proposal(*proposal, *committee, *local, *local_key, last_height, *current_root,
            *receipt_id, last_voted),
{
    let receipt = &proposal.receipt;
    if proposal.committee_epoch != committee.epoch {
        return ProposalCheck::EpochMismatch;
    }
    let leader = match leader_for_height(committee, receipt.height) {
        Some(l) => l,
        None => return ProposalCheck::NoLeader,
    };
    if !digest_eq(&receipt.executor.0, &leader.0) {
        return ProposalCheck::NotFromLeader;
    }
    let my_index = match member_index(&committee.members, local) {
        Some(i) => i,
        None => return ProposalCheck::NotAMember,
    };
    if !bls_key_eq(&committee.members[my_index].bls_public_key, local_key) {
        return ProposalCheck::KeyMismatch;
    }
    // No height follows the largest one.
    let height_ok = match last_height {
        Some(h) => h < u64::MAX && receipt.height == h + 1,
        None => receipt.height == 1,
    };
    if !height_ok {
        return ProposalCheck::UnexpectedHeight;
    }
    if !digest_eq(&receipt.state_root_in, current_root) {
        return ProposalCheck::StateRootMismatch;
    }
    if let Some((height, voted_receipt)) = last_voted {
        if height == receipt.height && !digest_eq(&voted_receipt, receipt_id) {
            return ProposalCheck::ConflictingVote;
        }
        if height > receipt.height {
            return ProposalCheck::StaleHeight;
        }
    }
    let calldata_hash = hash_bytes(receipt.call.calldata.as_slice());
    if !digest_eq(&calldata_hash, &receipt.inputs_hash) {
        return ProposalCheck::InputsHashMismatch;
    }
    ProposalCheck::Execute
}

/// A node never votes for two receipts at one height, nor below a height it
/// voted at: a proposal that conflicts with the node's last vote is never
/// executed (and so never signed).
pub proof fn lemma_no_conflicting_vote(
    proposal: StateTransitionProposal,
    committee: CommitteeCertificate,
    local: NodeId,
    local_key: BlsPublicKey,
    last_height: Option<u64>,
    current_root: [u8; 32],
    receipt_id: ReceiptId,
    last_voted: Option<(u64, ReceiptId)>,
)
    requires
        last_voted matches Some((h, voted)) && ((h == proposal.receipt.height && voted != receipt_id)
            || h > proposal.receipt.height),
    ensures
        spec_check_proposal(proposal, committee, local, local_key, last_height, current_root, receipt_id, last_voted)
            != ProposalCheck::Execute,
{
}

/// Byte-wise equality of two BLS public keys.
pub fn bls_key_eq(a: &BlsPublicKey, b: &BlsPublicKey) -> (res: bool)
    ensures
        res == (*a == *b),
{
    let mut i: usize = 0;
    while i < 96
        invariant
            i <= 96,
            forall|j: int| 0 <= j < i ==> a.0@[j] == b.0@[j],
        decreases 96 - i,
    {
        if a.0[i] != b.0[i] {
            return false;
        }
        i = i + 1;
    }
    assert(a.0 =~= b.0);
    true
}

/// Why a proposal that was executed is not signed, or that it may be.
#[derive(Clone, Copy, Debug, PartialEq, Eq, Structural)]
pub enum ExecutionCheck {
    /// The local run wrote other keys or values.
    WritesMismatch,
    /// The local run ended at another state root.
    RootMismatch,
    /// The receipt's write digest is not the hash of the encoded writes.
    DigestMismatch,
    /// Applying the proposed writes to the local state gives another root.
    PredictedRootMismatch,
    /// Everything matches: sign the receipt.
    Sign,
}

/// The key and value bytes of a write.
pub open spec fn spec_write_view(w: StateWrite) -> (Seq<u8>, Option<Seq<u8>>) {
    (w.key@, match w.value { Some(v) => Some(v@), None => None })
}

/// Two lists of writes write the same bytes in the same order.
pub open spec fn spec_same_writes(a: Seq<StateWrite>, b: Seq<StateWrite>) -> bool {
    a.map_values(|w: StateWrite| spec_write_view(w)) == b.map_values(|w: StateWrite| spec_write_view(w))
}

/// Whether two lists of writes write the same bytes in the same order.
pub fn same_writes(a: &Vec<StateWrite>, b: &Vec<StateWrite>) -> (res: bool)
    ensures
        res == spec_same_writes(a@, b@),
{
    let ghost va = a@.map_values(|w: StateWrite| spec_write_view(w));
    let ghost vb = b@.map_values(|w: StateWrite| spec_write_view(w));
    if a.len() != b.len() {
        assert(va.len() != vb.len());
        return false;
    }
    let mut i: usize = 0;
    while i < a.len()
        invariant
            i <= a@.len(),
            a@.len() == b@.len(),
            va == a@.map_values(|w: StateWrite| spec_write_view(w)),
            vb == b@.map_values(|w: StateWrite| spec_write_view(w)),
            forall|j: int| 0 <= j < i ==> va[j] == vb[j],
        decreases a@.len() - i,
    {
        if !bytes_eq(&a[i].key, &b[i].key) {
            assert(va[i as int] != vb[i as int]);
            return false;
        }
        let same_value = match (&a[i].value, &b[i].value) {
            (Some(x), Some(y)) => bytes_eq(x, y),
            (None, None) => true,
            _ => false,
        };
        if !same_value {
            assert(va[i as int] != vb[i as int]);
            return false;
        }
        assert(va[i as int] == vb[i as int]);
        i = i + 1;
    }
    assert(va =~= vb);
    true
}

/// The verdict on an executed proposal, given the local outcome, the encoded
/// proposed writes and the key/value pairs the program holds now.
pub open spec fn spec_check_execution(
    proposal: StateTransitionProposal,
    outcome: ExecutionOutcome,
    encoded_writes: Seq<u8>,
    current: Seq<(Vec<u8>, Vec<u8>)>,
) -> ExecutionCheck {
    if !spec_same_writes(outcome.state_writes@, proposal.state_writes@) {
        ExecutionCheck::WritesMismatch
    } else if outcome.state_root != proposal.receipt.state_root_out {
        ExecutionCheck::RootMismatch
    } else if blake3_hash(encoded_writes) != proposal.receipt.write_digest {
        ExecutionCheck::DigestMismatch
    } else if spec_sparse_root(spec_apply_writes(current, proposal.state_writes@)) != proposal.receipt.state_root_out {
        ExecutionCheck::PredictedRootMismatch
    } else {
        ExecutionCheck::Sign
    }
}

/// The checks a member makes after running a proposed call, before it signs.
pub fn check_execution(
    proposal: &StateTransitionProposal,
    outcome: &ExecutionOutcome,
    encoded_writes: &[u8],
    current: &Vec<(Vec<u8>, Vec<u8>)>,
) -> (res: ExecutionCheck)
    ensures
        res == spec_check_execution(*proposal, *outcome, encoded_writes@, current@),
{
    if !same_writes(&outcome.state_writes, &proposal.state_writes) {
        return ExecutionCheck::WritesMismatch;
    }
    if !digest_eq(&outcome.state_root, &proposal.receipt.state_root_out) {
        return ExecutionCheck::RootMismatch;
    }
    let digest = hash_bytes(encoded_writes);
    if !digest_eq(&digest, &proposal.receipt.write_digest) {
        return ExecutionCheck::DigestMismatch;
    }
    let predicted = compute_root_after_writes(current, proposal.state_writes.as_slice());
    if !digest_eq(&predicted, &proposal.receipt.state_root_out) {
        return ExecutionCheck::PredictedRootMismatch;
    }
    ExecutionCheck::Sign
}

/// Why a stored finalized transition is not applied, or that it may be.
#[derive(Clone, Copy, Debug, PartialEq, Eq, Structural)]
pub enum BundleCheck {
    /// The bundle starts from another state root than the current one.
    StateRootMismatch,
    /// The receipt's write digest is not the hash of the encoded writes.
    DigestMismatch,
    /// Applying the bundle's writes gives another root than the receipt's.
    PredictedRootMismatch,
    /// Apply the writes.
    Apply,
}

/// The verdict on applying a finalized transition to the current state.
pub open spec fn spec_check_bundle(
    bundle: AggregatedReceiptBundle,
    current_root: [u8; 32],
    encoded_writes: Seq<u8>,
    current: Seq<(Vec<u8>, Vec<u8>)>,
) -> BundleCheck {
    let receipt = bundle.receipt.receipt;
    if receipt.state_root_in != current_root {
        BundleCheck::StateRootMismatch
    } else if blake3_hash(encoded_writes) != receipt.write_digest {
        BundleCheck::DigestMismatch
    } else if spec_sparse_root(spec_apply_writes(current, bundle.state_writes@)) != receipt.state_root_out {
        BundleCheck::PredictedRootMismatch
    } else {
        BundleCheck::Apply
    }
}

/// The checks made before the writes of a finalized transition are applied.
pub fn check_bundle(
    bundle: &AggregatedReceiptBundle,
    current_root: &[u8; 32],
    encoded_writes: &[u8],
    current: &Vec<(Vec<u8>, Vec<u8>)>,
) -> (res: BundleCheck)
    ensures
        res == spec_check_bundle(*bundle, *current_root, encoded_writes@, current@),
{
    let receipt = &bundle.receipt.receipt;
    if !digest_eq(&receipt.state_root_in, current_root) {
        return BundleCheck::StateRootMismatch;
    }
    let digest = hash_bytes(encoded_writes);
    if !digest_eq(&digest, &receipt.write_digest) {
        return BundleCheck::DigestMismatch;
    }
    let predicted = compute_root_after_writes(current, bundle.state_writes.as_slice());
    if !digest_eq(&predicted, &receipt.state_root_out) {
        return BundleCheck::PredictedRootMismatch;
    }
    BundleCheck::Apply
}

/// Where the leader stands in a program's committee before it proposes its
/// own execution: its position, when it is a member under its own key.
pub fn proposer_position(committee: &CommitteeCertificate, local: &NodeId, local_key: &BlsPublicKey) -> (res: Result<usize, ProposalCheck>)
    ensures
        match spec_member_index(committee.members@, *local) {
            None => res == Err::<usize, ProposalCheck>(ProposalCheck::NotAMember),
            Some(i) => if committee.members@[i].bls_public_key == *local_key {
                res == Ok::<usize, ProposalCheck>(i as usize)
            } else {
                res == Err::<usize, ProposalCheck>(ProposalCheck::KeyMismatch)
            },
        },
{
    match member_index(&committee.members, local) {
        None => Err(ProposalCheck::NotAMember),
        Some(i) => {
            if bls_key_eq(&committee.members[i].bls_public_key, local_key) {
                Ok(i)
            } else {
                Err(ProposalCheck::KeyMismatch)
            }
        },
    }
}

/// The tag hashed into every receipt as its execution environment.
pub const WASM_ENV_TAG: &'static str = "wasm_env_v1";

/// The receipt the leader proposes for a call it ran at `height`: the call
/// is identified by the hash of its input, which is also the input hash;
/// the writes by the hash of their encoding; there are no events; and the
/// nonce is the first byte of the call's identifier.
pub fn build_execution_receipt(
    program_id: ProgramId,
    height: u64,
    state_root_in: [u8; 32],
    entrypoint: String,
    input: &[u8],
    gas_used: u64,
    state_root_out: [u8; 32],
    encoded_writes: &[u8],
    wasm_code_hash: Option<[u8; 32]>,
    executor: NodeId,
) -> (res: ExecutionReceipt)
    ensures
        res.program_id == program_id,
        res.height == height,
        res.state_root_in == state_root_in,
        res.call.entrypoint == entrypoint,
        res.call.calldata@ == input@,
        res.call.request_id == blake3_hash(input@),
        res.inputs_hash == blake3_hash(input@),
        res.gas_used == gas_used,
        res.state_root_out == state_root_out,
        res.write_digest == blake3_hash(encoded_writes@),
        forall|k: int| 0 <= k < 32 ==> res.events_hash[k] == 0u8,
        res.wasm_code_hash == wasm_code_hash,
        res.wasm_env_hash == blake3_hash(encode_utf8(WASM_ENV_TAG@)),
        res.nonce == blake3_hash(input@)[0] as u64,
        res.executor == executor,
{
    let request_id = hash_bytes(input);
    let inputs_hash = hash_bytes(input);
    let write_digest = hash_bytes(encoded_writes);
    let wasm_env_hash = hash_bytes(WASM_ENV_TAG.as_bytes());
    let mut calldata: Vec<u8> = Vec::new();
    let mut i: usize = 0;
    while i < input.len()
        invariant
            i <= input@.len(),
            calldata@ == input@.take(i as int),
        decreases input@.len() - i,
    {
        calldata.push(input[i]);
        assert(input@.take(i + 1) =~= input@.take(i as int).push(input@[i as int]));
        i = i + 1;
    }
    assert(input@.take(input@.len() as int) =~= input@);
    ExecutionReceipt {
        program_id,
        height,
        state_root_in,
        call: ExecutionCall { entrypoint, calldata, request_id },
        inputs_hash,
        gas_used,
        state_root_out,
        write_digest,
        events_hash: [0u8; 32],
        wasm_code_hash,
        wasm_env_hash,
        nonce: request_id[0] as u64,
        executor,
    }
}

} // verus!
