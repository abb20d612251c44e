//! A proposed state transition while its committee votes on it: which votes
//! count, when the votes suffice, and the aggregated receipt they yield.

use vstd::prelude::*;
use crate::bls::{self, BlsError, BlsSignature, DST_RECEIPT, bls_aggregate_signatures,
    bls_fast_aggregate_verifies, bls_verifies, public_key_bytes, signature_bytes};
use crate::committee::{sat_add, spec_bitmap_bit, spec_member_weight, spec_select_signers,
    spec_selected, spec_scan_len, spec_signature_of, spec_signed, spec_signed_keys,
    spec_signer_weight, spec_signers, spec_verify_aggregated_receipt, ReceiptError};
use crate::hashing::digest_eq;
use crate::protocol::{AggregatedReceiptBundle, StateTransitionVote};
use crate::types::{AggregatedReceipt, CommitteeCertificate, CommitteeMember, ExecutionReceipt,
    NodeId, ReceiptId, StateWrite};
use crate::bls::BlsPublicKey;

verus! {

/// No node appears twice among the recorded signatures.
pub open spec fn spec_distinct_signers(sigs: Seq<(NodeId, BlsSignature)>) -> bool {
    forall|i: int, j: int| 0 <= i < j < sigs.len() ==> sigs[i].0 != sigs[j].0
}

/// The key of the first member with node `node`, if any.
pub open spec fn spec_member_key(members: Seq<CommitteeMember>, node: NodeId) -> Option<BlsPublicKey>
    decreases members.len(),
{
    if members.len() == 0 {
        None
    } else if members[0].node == node {
        Some(members[0].bls_public_key)
    } else {
        spec_member_key(members.drop_first(), node)
    }
}

/// A receipt awaiting the votes of its committee.
pub struct PendingTransition {
    pub committee: CommitteeCertificate,
    pub receipt: ExecutionReceipt,
    pub receipt_id: ReceiptId,
    pub state_writes: Vec<StateWrite>,
    /// The valid votes received so far, one per member.
    pub signatures: Vec<(NodeId, BlsSignature)>,
}

impl PendingTransition {
    /// Each member has at most one recorded vote.
    pub open spec fn wf(&self) -> bool {
        spec_distinct_signers(self.signatures@)
    }

    /// Weight of the members that voted so far.
    pub open spec fn spec_weight(&self) -> u64 {
        spec_signer_weight(self.committee.members@, spec_signers(self.signatures@))
    }
}

/// What became of a vote.
#[derive(Clone, Copy, Debug, PartialEq, Eq, Structural)]
pub enum VoteOutcome {
    /// The vote is for another receipt.
    UnknownReceipt,
    /// The vote names another program than the receipt.
    ProgramMismatch,
    /// The vote names another committee epoch.
    EpochMismatch,
    /// The signer is not a member of the committee.
    NotAMember,
    /// The signer has voted already; the first vote stands.
    AlreadyVoted,
    /// The signature does not verify under the member's key.
    InvalidSignature,
    /// The vote was recorded; the votes do not suffice yet.
    Recorded,
    /// The vote was recorded and the votes now reach the threshold.
    ReadyToFinalize,
}

/// The fate of `vote` at transition `p`.
pub open spec fn spec_vote_outcome(p: PendingTransition, vote: StateTransitionVote) -> VoteOutcome {
    let members = p.committee.members@;
    if vote.receipt_id != p.receipt_id {
        VoteOutcome::UnknownReceipt
    } else if vote.program_id != p.receipt.program_id {
        VoteOutcome::ProgramMismatch
    } else if vote.committee_epoch != p.committee.epoch {
        VoteOutcome::EpochMismatch
    } else {
        match spec_member_key(members, vote.signer) {
            None => VoteOutcome::NotAMember,
            Some(key) => if spec_signature_of(p.signatures@, vote.signer) is Some {
                VoteOutcome::AlreadyVoted
            } else if !bls_verifies(vote.receipt_id@, key.0@, vote.signature.0@, DST_RECEIPT@) {
                VoteOutcome::InvalidSignature
            } else if spec_signer_weight(
                members,
                spec_signers(p.signatures@.push((vote.signer, vote.signature))),
            ) >= p.committee.threshold {
                VoteOutcome::ReadyToFinalize
            } else {
                VoteOutcome::Recorded
            },
        }
    }
}

proof fn lemma_signature_of_none(sigs: Seq<(NodeId, BlsSignature)>, node: NodeId)
    ensures
        spec_signature_of(sigs, node) is None <==> forall|i: int| 0 <= i < sigs.len() ==> sigs[i].0 != node,
    decreases sigs.len(),
{
    if sigs.len() > 0 {
        lemma_signature_of_none(sigs.drop_first(), node);
        assert forall|i: int| 0 < i < sigs.len() implies sigs[i].0 == sigs.drop_first()[i - 1].0 by {}
        if spec_signature_of(sigs.drop_first(), node) is None && sigs[0].0 != node {
            assert forall|i: int| 0 <= i < sigs.len() implies sigs[i].0 != node by {
                if i > 0 {
                    assert(sigs[i] == sigs.drop_first()[i - 1]);
                }
            }
        }
    }
}

fn node_eq(a: &NodeId, b: &NodeId) -> (res: bool)
    ensures
        res == (*a == *b),
{
    digest_eq(&a.0, &b.0)
}

fn receipt_id_eq(a: &ReceiptId, b: &ReceiptId) -> (res: bool)
    ensures
        res == (*a == *b),
{
    digest_eq(a, b)
}

fn member_key(members: &Vec<CommitteeMember>, node: &NodeId) -> (res: Option<BlsPublicKey>)
    ensures
        res == spec_member_key(members@, *node),
{
    let mut i: usize = 0;
    assert(members@.skip(0) =~= members@);
    while i < members.len()
        invariant
            i <= members@.len(),
            spec_member_key(members@, *node) == spec_member_key(members@.skip(i as int), *node),
        decreases members@.len() - i,
    {
        assert(members@.skip(i as int).drop_first() =~= members@.skip(i + 1));
        if node_eq(&members[i].node, node) {
            return Some(members[i].bls_public_key);
        }
        i = i + 1;
    }
    None
}

/// The signature recorded for `node`, if any.
fn signature_of(sigs: &Vec<(NodeId, BlsSignature)>, node: &NodeId) -> (res: Option<BlsSignature>)
    ensures
        res == spec_signature_of(sigs@, *node),
{
    let mut i: usize = 0;
    assert(sigs@.skip(0) =~= sigs@);
    while i < sigs.len()
        invariant
            i <= sigs@.len(),
            spec_signature_of(sigs@, *node) == spec_signature_of(sigs@.skip(i as int), *node),
        decreases sigs@.len() - i,
    {
        assert(sigs@.skip(i as int).drop_first() =~= sigs@.skip(i + 1));
        if node_eq(&sigs[i].0, node) {
            return Some(sigs[i].1);
        }
        i = i + 1;
    }
    None
}

/// The nodes of the recorded signatures.
fn signer_nodes(sigs: &Vec<(NodeId, BlsSignature)>) -> (res: Vec<NodeId>)
    ensures
        res@ == spec_signers(sigs@),
{
    let mut out: Vec<NodeId> = Vec::new();
    let mut i: usize = 0;
    while i < sigs.len()
        invariant
            i <= sigs@.len(),
            out@ == spec_signers(sigs@.take(i as int)),
        decreases sigs@.len() - i,
    {
        out.push(sigs[i].0);
        assert(spec_signers(sigs@.take(i + 1)) =~= spec_signers(sigs@.take(i as int)).push(sigs@[i as int].0));
        i = i + 1;
    }
    assert(sigs@.take(sigs@.len() as int) =~= sigs@);
    out
}

impl PendingTransition {
    /// A transition with no votes yet.
    pub fn new(
        committee: CommitteeCertificate,
        receipt: ExecutionReceipt,
        receipt_id: ReceiptId,
        state_writes: Vec<StateWrite>,
    ) -> (res: Self)
        ensures
            res.wf(),
            res.committee == committee,
            res.receipt == receipt,
            res.receipt_id == receipt_id,
            res.state_writes == state_writes,
            res.signatures@.len() == 0,
    {
        PendingTransition { committee, receipt, receipt_id, state_writes, signatures: Vec::new() }
    }

    /// Total weight of the members that voted so far.
    pub fn weight(&self) -> (res: u64)
        ensures
            res == self.spec_weight(),
    {
        let nodes = signer_nodes(&self.signatures);
        crate::committee::signer_weight(&self.committee, nodes.as_slice())
    }

    /// Whether the votes so far reach the committee's threshold.
    pub fn has_quorum(&self) -> (res: bool)
        ensures
            res == (self.spec_weight() >= self.committee.threshold),
    {
        self.weight() >= self.committee.threshold as u64
    }

    /// Count a vote: a member's first vote whose signature verifies over the
    /// receipt identifier is recorded; any other vote leaves the transition
    /// as it was.
    pub fn record_vote(&mut self, vote: &StateTransitionVote) -> (res: VoteOutcome)
        requires
            old(self).wf(),
        ensures
            final(self).wf(),
            res == spec_vote_outcome(*old(self), *vote),
            (res == VoteOutcome::Recorded || res == VoteOutcome::ReadyToFinalize) ==> {
                &&& final(self).signatures@ == old(self).signatures@.push((vote.signer, vote.signature))
                &&& final(self).committee == old(self).committee
                &&& final(self).receipt == old(self).receipt
                &&& final(self).receipt_id == old(self).receipt_id
                &&& final(self).state_writes == old(self).state_writes
            },
            !(res == VoteOutcome::Recorded || res == VoteOutcome::ReadyToFinalize) ==> *final(self) == *old(self),
    {
        if !receipt_id_eq(&vote.receipt_id, &self.receipt_id) {
            return VoteOutcome::UnknownReceipt;
        }
        if !digest_eq(&vote.program_id.0, &self.receipt.program_id.0) {
            return VoteOutcome::ProgramMismatch;
        }
        if vote.committee_epoch != self.committee.epoch {
            return VoteOutcome::EpochMismatch;
        }
        let key = match member_key(&self.committee.members, &vote.signer) {
            Some(k) => k,
            None => return VoteOutcome::NotAMember,
        };
        if signature_of(&self.signatures, &vote.signer).is_some() {
            return VoteOutcome::AlreadyVoted;
        }
        if bls::verify(&vote.receipt_id, &key, &vote.signature, &DST_RECEIPT).is_err() {
            return VoteOutcome::InvalidSignature;
        }
        proof {
            lemma_signature_of_none(self.signatures@, vote.signer);
        }
        self.signatures.push((vote.signer, vote.signature));
        if self.has_quorum() {
            VoteOutcome::ReadyToFinalize
        } else {
            VoteOutcome::Recorded
        }
    }
}

/// The bitmap has a bit for each member (`(n + 7) / 8` bytes), and it marks
/// exactly the members that voted.
pub open spec fn spec_marks_signers(
    members: Seq<CommitteeMember>,
    sigs: Seq<(NodeId, BlsSignature)>,
    bitmap: Seq<u8>,
) -> bool {
    &&& bitmap.len() == (members.len() + 7) / 8
    &&& forall|idx: int| 0 <= idx < members.len() ==>
        (#[trigger] spec_bitmap_bit(bitmap, idx) <==> spec_signature_of(sigs, members[idx].node) is Some)
}

/// `bundle` is the finalized form of `p`: its receipt, committee and writes,
/// a bitmap that marks the members that voted, and `aggregate` as signature.
pub open spec fn spec_finalized_bundle(p: PendingTransition, bundle: AggregatedReceiptBundle, aggregate: [u8; 48]) -> bool {
    &&& bundle.receipt.receipt == p.receipt
    &&& bundle.receipt.committee_epoch == p.committee.epoch
    &&& spec_marks_signers(p.committee.members@, p.signatures@, bundle.receipt.signer_bitmap@)
    &&& bundle.receipt.aggregate_signature == BlsSignature(aggregate)
    &&& bundle.receipt.aggregate_public_key == p.committee.aggregate_public_key
    &&& bundle.committee == p.committee
    &&& bundle.state_writes == p.state_writes
}

proof fn lemma_set_bit(x: u8, b: u8, c: u8)
    requires
        b < 8,
        c < 8,
    ensures
        ((x | (1u8 << b)) >> c) & 1u8 == (if c == b { 1u8 } else { (x >> c) & 1u8 }),
{
    assert(((x | (1u8 << b)) >> c) & 1u8 == (if c == b { 1u8 } else { (x >> c) & 1u8 })) by (bit_vector)
        requires
            b < 8,
            c < 8,
    ;
}

proof fn lemma_zero_bit(c: u8)
    requires
        c < 8,
    ensures
        (0u8 >> c) & 1u8 == 0u8,
{
    assert((0u8 >> c) & 1u8 == 0u8) by (bit_vector);
}

/// `n` zero bytes.
fn zero_bytes(n: usize) -> (res: Vec<u8>)
    ensures
        res@.len() == n,
        forall|i: int| 0 <= i < n ==> res@[i] == 0u8,
{
    let mut out: Vec<u8> = Vec::new();
    let mut i: usize = 0;
    while i < n
        invariant
            i <= n,
            out@.len() == i,
            forall|j: int| 0 <= j < i ==> out@[j] == 0u8,
        decreases n - i,
    {
        out.push(0u8);
        i = i + 1;
    }
    out
}

/// The signer bitmap of the recorded votes, with the signatures and total
/// weight of the members that voted, in committee order.
pub fn signer_bitmap(
    committee: &CommitteeCertificate,
    sigs: &Vec<(NodeId, BlsSignature)>,
) -> (res: (Vec<u8>, Vec<BlsSignature>, u64))
    requires
        committee.members@.len() + 7 <= usize::MAX,
    ensures
        spec_marks_signers(committee.members@, sigs@, res.0@),
        (res.1@, res.2) == spec_signed(committee.members@, sigs@, committee.members@.len() as int),
{
    let n = committee.members.len();
    let len = (n + 7) / 8;
    let mut bitmap = zero_bytes(len);
    proof {
        assert forall|j: int| 0 <= j < len * 8 implies !#[trigger] spec_bitmap_bit(bitmap@, j) by {
            lemma_zero_bit((j % 8) as u8);
            assert(bitmap@[j / 8] == 0u8);
        }
    }
    let mut chosen: Vec<BlsSignature> = Vec::new();
    let mut weight: u64 = 0;
    let mut idx: usize = 0;
    while idx < n
        invariant
            n == committee.members@.len(),
            len == (n + 7) / 8,
            idx <= n,
            bitmap@.len() == len,
            forall|j: int| 0 <= j < idx ==>
                (#[trigger] spec_bitmap_bit(bitmap@, j) <==> spec_signature_of(sigs@, committee.members@[j].node) is Some),
            forall|j: int| idx <= j < len * 8 ==> !#[trigger] spec_bitmap_bit(bitmap@, j),
            (chosen@, weight) == spec_signed(committee.members@, sigs@, idx as int),
        decreases n - idx,
    {
        let member = &committee.members[idx];
        match signature_of(sigs, &member.node) {
            Some(sig) => {
                let byte_index = idx / 8;
                let bit_index = (idx % 8) as u8;
                let old_byte = bitmap[byte_index];
                let ghost old_map = bitmap@;
                bitmap.set(byte_index, old_byte | (1u8 << bit_index));
                proof {
                    assert forall|j: int| 0 <= j < len * 8 && j != idx implies
                        #[trigger] spec_bitmap_bit(bitmap@, j) == spec_bitmap_bit(old_map, j) by {
                        if j / 8 == byte_index as int {
                            assert(j % 8 != idx % 8);
                            lemma_set_bit(old_byte, bit_index, (j % 8) as u8);
                            assert(bitmap@[j / 8] == old_byte | (1u8 << bit_index));
                            assert(old_map[j / 8] == old_byte);
                        } else {
                            assert(bitmap@[j / 8] == old_map[j / 8]);
                        }
                    }
                    lemma_set_bit(old_byte, bit_index, bit_index);
                    assert(bitmap@[byte_index as int] == old_byte | (1u8 << bit_index));
                    assert(spec_bitmap_bit(bitmap@, idx as int));
                    assert forall|j: int| 0 <= j < idx + 1 implies
                        (#[trigger] spec_bitmap_bit(bitmap@, j) <==> spec_signature_of(sigs@, committee.members@[j].node) is Some) by {
                        if j < idx {
                            assert(spec_bitmap_bit(old_map, j) == spec_bitmap_bit(bitmap@, j));
                        }
                    }
                }
                chosen.push(sig);
                weight = weight.saturating_add(member.weight);
            },
            None => {
                assert(!spec_bitmap_bit(bitmap@, idx as int));
            },
        }
        idx = idx + 1;
    }
    (bitmap, chosen, weight)
}

proof fn lemma_selected_matches_signed(
    members: Seq<CommitteeMember>,
    sigs: Seq<(NodeId, BlsSignature)>,
    bitmap: Seq<u8>,
    k: int,
)
    requires
        0 <= k <= members.len(),
        spec_marks_signers(members, sigs, bitmap),
    ensures
        spec_selected(members, bitmap, k) == (spec_signed_keys(members, sigs, k), spec_signed(members, sigs, k).1),
    decreases k,
{
    if k > 0 {
        lemma_selected_matches_signed(members, sigs, bitmap, k - 1);
        assert(spec_bitmap_bit(bitmap, k - 1) <==> spec_signature_of(sigs, members[k - 1].node) is Some);
    }
}

/// What the bitmap of a finalized transition makes receipt verification
/// select: the keys of exactly the members that voted, in committee order,
/// with the total weight of their votes.
pub proof fn lemma_bitmap_selects_voters(
    members: Seq<CommitteeMember>,
    sigs: Seq<(NodeId, BlsSignature)>,
    bitmap: Seq<u8>,
)
    requires
        spec_marks_signers(members, sigs, bitmap),
    ensures
        spec_select_signers(members, bitmap) == (
            spec_signed_keys(members, sigs, members.len() as int),
            spec_signed(members, sigs, members.len() as int).1,
        ),
{
    assert(spec_scan_len(members.len() as int, bitmap.len() as int) == members.len());
    lemma_selected_matches_signed(members, sigs, bitmap, members.len() as int);
}

/// Finalize a transition: build the signer bitmap and aggregate the votes.
/// `None` while the votes weigh less than the threshold.
pub fn build_finalized_bundle(entry: PendingTransition) -> (res: Result<Option<AggregatedReceiptBundle>, BlsError>)
    requires
        entry.committee.members@.len() + 7 <= usize::MAX,
    ensures
        ({
            let (sigs, weight) = spec_signed(entry.committee.members@, entry.signatures@, entry.committee.members@.len() as int);
            if weight < entry.committee.threshold {
                res == Ok::<Option<AggregatedReceiptBundle>, BlsError>(None)
            } else if sigs.len() == 0 {
                res == Err::<Option<AggregatedReceiptBundle>, BlsError>(BlsError::NoSignatures)
            } else {
                match bls_aggregate_signatures(signature_bytes(sigs)) {
                    None => res == Err::<Option<AggregatedReceiptBundle>, BlsError>(BlsError::AggregationFailed),
                    Some(aggregate) => res matches Ok(Some(bundle)) && spec_finalized_bundle(entry, bundle, aggregate),
                }
            }
        }),
{
    let (bitmap, sigs, weight) = signer_bitmap(&entry.committee, &entry.signatures);
    if weight < entry.committee.threshold as u64 {
        return Ok(None);
    }
    let aggregate_signature = match bls::aggregate_signatures(sigs.as_slice()) {
        Ok(sig) => sig,
        Err(e) => return Err(e),
    };
    let aggregate_public_key = entry.committee.aggregate_public_key;
    let committee_epoch = entry.committee.epoch;
    let PendingTransition { committee, receipt, receipt_id: _, state_writes, signatures: _ } = entry;
    let aggregated = AggregatedReceipt {
        receipt,
        committee_epoch,
        signer_bitmap: bitmap,
        aggregate_signature,
        aggregate_public_key,
    };
    Ok(Some(AggregatedReceiptBundle { receipt: aggregated, committee, state_writes }))
}

/// A bundle that finalization produced passes every check of receipt
/// verification but the aggregate signature itself, which is checked against
/// the keys of exactly the members that voted.
pub proof fn lemma_finalized_bundle_verifies(p: PendingTransition, bundle: AggregatedReceiptBundle, aggregate: [u8; 48])
    requires
        spec_finalized_bundle(p, bundle, aggregate),
        p.receipt.program_id == p.committee.program_id,
        spec_signed(p.committee.members@, p.signatures@, p.committee.members@.len() as int).1 >= p.committee.threshold,
        spec_signed(p.committee.members@, p.signatures@, p.committee.members@.len() as int).1 > 0,
    ensures
        spec_verify_aggregated_receipt(bundle.receipt, bundle.committee, p.receipt_id) == (
            if bls_fast_aggregate_verifies(
                p.receipt_id@,
                public_key_bytes(spec_signed_keys(p.committee.members@, p.signatures@, p.committee.members@.len() as int)),
                aggregate@,
                DST_RECEIPT@,
            ) {
                Ok::<(), ReceiptError>(())
            } else {
                Err::<(), ReceiptError>(ReceiptError::InvalidAggregateSignature)
            }
        ),
{
    let members = p.committee.members@;
    lemma_bitmap_selects_voters(members, p.signatures@, bundle.receipt.signer_bitmap@);
    lemma_keys_nonempty(members, p.signatures@, members.len() as int);
}

proof fn lemma_keys_nonempty(members: Seq<CommitteeMember>, sigs: Seq<(NodeId, BlsSignature)>, k: int)
    requires
        0 <= k <= members.len(),
    ensures
        spec_signed(members, sigs, k).1 > 0 ==> spec_signed_keys(members, sigs, k).len() > 0,
    decreases k,
{
    if k > 0 {
        lemma_keys_nonempty(members, sigs, k - 1);
    }
}

} // verus!
