//! Committee rules for program state transitions: who leads a height, whose
//! signatures a receipt carries, how votes are counted and when they suffice.

use vstd::prelude::*;
use crate::bls::{self, BlsPublicKey, BlsSignature, DST_RECEIPT, bls_fast_aggregate_verifies, bls_verifies, public_key_bytes};
use crate::hashing::digest_eq;
use crate::types::{AggregatedReceipt, CommitteeCertificate, CommitteeMember, ExecutionReceipt, NodeId, ProgramId, ReceiptId, StateWrite};

verus! {

/// Addition that stops at `u64::MAX`.
pub open spec fn sat_add(a: u64, b: u64) -> u64 {
    if a + b > u64::MAX { u64::MAX } else { (a + b) as u64 }
}

/// The node that executes `height` (heights start at 1): members take turns.
pub open spec fn spec_leader_for_height(members: Seq<CommitteeMember>, height: u64) -> Option<NodeId> {
    if members.len() == 0 || height == 0 {
        None
    } else {
        Some(members[((((height - 1) as u64) as usize) as int) % (members.len() as int)].node)
    }
}

/// Weight of the first member with node `node`, if any.
pub open spec fn spec_member_weight(members: Seq<CommitteeMember>, node: NodeId) -> Option<u64>
    decreases members.len(),
{
    if members.len() == 0 {
        None
    } else if members[0].node == node {
        Some(members[0].weight)
    } else {
        spec_member_weight(members.drop_first(), node)
    }
}

/// Sum (stopping at `u64::MAX`) of the weights of the members among `signers`,
/// a signer counted once for each time it is listed.
pub open spec fn spec_signer_weight(members: Seq<CommitteeMember>, signers: Seq<NodeId>) -> u64
    decreases signers.len(),
{
    if signers.len() == 0 {
        0
    } else {
        let w = spec_signer_weight(members, signers.drop_last());
        match spec_member_weight(members, signers.last()) {
            Some(x) => sat_add(w, x),
            None => w,
        }
    }
}

/// Whether the bitmap marks member `idx`.
pub open spec fn spec_bitmap_bit(bitmap: Seq<u8>, idx: int) -> bool {
    (bitmap[idx / 8] >> ((idx % 8) as u8)) & 1u8 == 1u8
}

/// The number of members a bitmap of `bitmap_len` bytes can mark.
pub open spec fn spec_scan_len(members_len: int, bitmap_len: int) -> int {
    if members_len <= bitmap_len * 8 { members_len } else { bitmap_len * 8 }
}

/// Keys and total weight of the members among the first `n` that the bitmap marks.
pub open spec fn spec_selected(members: Seq<CommitteeMember>, bitmap: Seq<u8>, n: int) -> (Seq<BlsPublicKey>, u64)
    decreases n,
{
    if n <= 0 {
        (Seq::empty(), 0)
    } else {
        let prev = spec_selected(members, bitmap, n - 1);
        if spec_bitmap_bit(bitmap, n - 1) {
            (prev.0.push(members[n - 1].bls_public_key), sat_add(prev.1, members[n - 1].weight))
        } else {
            prev
        }
    }
}

/// Keys and total weight of the members that the bitmap marks.
pub open spec fn spec_select_signers(members: Seq<CommitteeMember>, bitmap: Seq<u8>) -> (Seq<BlsPublicKey>, u64) {
    spec_selected(members, bitmap, spec_scan_len(members.len() as int, bitmap.len() as int))
}

/// The signature recorded for `node`, if any (the first one listed).
pub open spec fn spec_signature_of(sigs: Seq<(NodeId, BlsSignature)>, node: NodeId) -> Option<BlsSignature>
    decreases sigs.len(),
{
    if sigs.len() == 0 {
        None
    } else if sigs[0].0 == node {
        Some(sigs[0].1)
    } else {
        spec_signature_of(sigs.drop_first(), node)
    }
}

/// Signatures and total weight of the members among the first `n` that signed.
pub open spec fn spec_signed(members: Seq<CommitteeMember>, sigs: Seq<(NodeId, BlsSignature)>, n: int) -> (Seq<BlsSignature>, u64)
    decreases n,
{
    if n <= 0 {
        (Seq::empty(), 0)
    } else {
        let prev = spec_signed(members, sigs, n - 1);
        match spec_signature_of(sigs, members[n - 1].node) {
            Some(sig) => (prev.0.push(sig), sat_add(prev.1, members[n - 1].weight)),
            None => prev,
        }
    }
}

/// Keys of the members among the first `n` that signed.
pub open spec fn spec_signed_keys(members: Seq<CommitteeMember>, sigs: Seq<(NodeId, BlsSignature)>, n: int) -> Seq<BlsPublicKey>
    decreases n,
{
    if n <= 0 {
        Seq::empty()
    } else {
        let prev = spec_signed_keys(members, sigs, n - 1);
        if spec_signature_of(sigs, members[n - 1].node) is Some {
            prev.push(members[n - 1].bls_public_key)
        } else {
            prev
        }
    }
}

/// The node of each recorded signature.
pub open spec fn spec_signers(sigs: Seq<(NodeId, BlsSignature)>) -> Seq<NodeId> {
    sigs.map_values(|p: (NodeId, BlsSignature)| p.0)
}

/// Why an aggregated receipt was refused.
#[derive(Clone, Copy, Debug, PartialEq, Eq, Structural)]
pub enum ReceiptError {
    /// The receipt is for another program than the committee.
    ProgramMismatch,
    /// The receipt names another epoch than the committee's.
    EpochMismatch,
    /// The bitmap marks no signer, or only signers of weight zero.
    NoSigners,
    /// The marked signers weigh less than the threshold.
    InsufficientWeight { have: u64, need: u32 },
    /// The aggregate signature does not verify under the marked keys.
    InvalidAggregateSignature,
}

/// The verdict on an aggregated receipt whose receipt has identifier `receipt_id`.
pub open spec fn spec_verify_aggregated_receipt(
    receipt: AggregatedReceipt,
    committee: CommitteeCertificate,
    receipt_id: ReceiptId,
) -> Result<(), ReceiptError> {
    let (keys, weight) = spec_select_signers(committee.members@, receipt.signer_bitmap@);
    if receipt.receipt.program_id != committee.program_id {
        Err(ReceiptError::ProgramMismatch)
    } else if receipt.committee_epoch != committee.epoch {
        Err(ReceiptError::EpochMismatch)
    } else if keys.len() == 0 || weight == 0 {
        Err(ReceiptError::NoSigners)
    } else if weight < committee.threshold {
        Err(ReceiptError::InsufficientWeight { have: weight, need: committee.threshold })
    } else if bls_fast_aggregate_verifies(receipt_id@, public_key_bytes(keys), receipt.aggregate_signature.0@, DST_RECEIPT@) {
        Ok(())
    } else {
        Err(ReceiptError::InvalidAggregateSignature)
    }
}

fn sat_add_u64(a: u64, b: u64) -> (res: u64)
    ensures
        res == sat_add(a, b),
{
    a.saturating_add(b)
}

fn node_eq(a: &NodeId, b: &NodeId) -> (res: bool)
    ensures
        res == (*a == *b),
{
    digest_eq(&a.0, &b.0)
}

fn program_eq(a: &ProgramId, b: &ProgramId) -> (res: bool)
    ensures
        res == (*a == *b),
{
    digest_eq(&a.0, &b.0)
}

/// The node that executes `height`: members take turns, starting with the
/// first member at height 1; none for an empty committee or height 0.
pub fn leader_for_height(committee: &CommitteeCertificate, height: u64) -> (res: Option<NodeId>)
    ensures
        res == spec_leader_for_height(committee.members@, height),
{
    if committee.members.len() == 0 || height == 0 {
        return None;
    }
    let idx = (height.saturating_sub(1) as usize) % committee.members.len();
    Some(committee.members[idx].node)
}

fn member_weight(members: &Vec<CommitteeMember>, node: &NodeId) -> (res: Option<u64>)
    ensures
        res == spec_member_weight(members@, *node),
{
    let mut i: usize = 0;
    assert(members@.skip(0) =~= members@);
    while i < members.len()
        invariant
            i <= members@.len(),
            spec_member_weight(members@, *node) == spec_member_weight(members@.skip(i as int), *node),
        decreases members@.len() - i,
    {
        assert(members@.skip(i as int).drop_first() =~= members@.skip(i + 1));
        if node_eq(&members[i].node, node) {
            return Some(members[i].weight);
        }
        i = i + 1;
    }
    None
}

/// Total weight (stopping at `u64::MAX`) of the committee members among `signers`.
pub fn signer_weight(committee: &CommitteeCertificate, signers: &[NodeId]) -> (res: u64)
    ensures
        res == spec_signer_weight(committee.members@, signers@),
{
    let mut weight: u64 = 0;
    let mut i: usize = 0;
    while i < signers.len()
        invariant
            i <= signers@.len(),
            weight == spec_signer_weight(committee.members@, signers@.take(i as int)),
        decreases signers@.len() - i,
    {
        assert(signers@.take(i + 1).drop_last() =~= signers@.take(i as int));
        if let Some(w) = member_weight(&committee.members, &signers[i]) {
            weight = sat_add_u64(weight, w);
        }
        i = i + 1;
    }
    assert(signers@.take(signers@.len() as int) =~= signers@);
    weight
}

/// Keys and total weight of the members that the bitmap marks.
pub fn select_signers(committee: &CommitteeCertificate, bitmap: &[u8]) -> (res: (Vec<BlsPublicKey>, u64))
    ensures
        (res.0@, res.1) == spec_select_signers(committee.members@, bitmap@),
{
    let mut selected: Vec<BlsPublicKey> = Vec::new();
    let mut weight: u64 = 0;
    let mut idx: usize = 0;
    let n = committee.members.len();
    while idx < n && idx / 8 < bitmap.len()
        invariant
            n == committee.members@.len(),
            idx <= n,
            idx <= bitmap@.len() * 8,
            (selected@, weight) == spec_selected(committee.members@, bitmap@, idx as int),
        decreases n - idx,
    {
        let byte_index = idx / 8;
        let bit_index = idx % 8;
        if (bitmap[byte_index] >> (bit_index as u8)) & 1 == 1 {
            selected.push(committee.members[idx].bls_public_key);
            weight = sat_add_u64(weight, committee.members[idx].weight);
        }
        idx = idx + 1;
    }
    (selected, weight)
}

impl ReceiptVerifier {
    /// Check an aggregated receipt against its committee: same program and
    /// epoch, marked signers weighing at least the threshold, and an aggregate
    /// signature over `receipt_id` that verifies under their keys.
    pub fn verify_aggregated_receipt(
        receipt: &AggregatedReceipt,
        committee: &CommitteeCertificate,
        receipt_id: &ReceiptId,
    ) -> (res: Result<(), ReceiptError>)
        ensures
            res == spec_verify_aggregated_receipt(*receipt, *committee, *receipt_id),
    {
        if !program_eq(&receipt.receipt.program_id, &committee.program_id) {
            return Err(ReceiptError::ProgramMismatch);
        }
        if receipt.committee_epoch != committee.epoch {
            return Err(ReceiptError::EpochMismatch);
        }
        let (signer_keys, signer_weight) = select_signers(committee, receipt.signer_bitmap.as_slice());
        if signer_keys.len() == 0 || signer_weight == 0 {
            return Err(ReceiptError::NoSigners);
        }
        if signer_weight < committee.threshold as u64 {
            return Err(ReceiptError::InsufficientWeight { have: signer_weight, need: committee.threshold });
        }
        match bls::fast_aggregate_verify(receipt_id, signer_keys.as_slice(), &receipt.aggregate_signature, &DST_RECEIPT) {
            Ok(()) => Ok(()),
            Err(_) => Err(ReceiptError::InvalidAggregateSignature),
        }
    }
}

/// Verifies aggregated receipts against committees.
pub struct ReceiptVerifier;

/// Members take turns in their order: the member at position `i` leads
/// height `i + 1`, and the same member leads again `n` heights later, for
/// a committee of `n` members (heights that fit in a `usize`).
pub proof fn lemma_leader_rotation(members: Seq<CommitteeMember>, h: u64)
    requires
        members.len() > 0,
        1 <= h,
        h + members.len() <= usize::MAX,
    ensures
        spec_leader_for_height(members, (h + members.len()) as u64) == spec_leader_for_height(members, h),
        h <= members.len() ==> spec_leader_for_height(members, h) == Some(members[h - 1].node),
{
    let n = members.len() as int;
    let a = (h - 1) as int;
    assert((((h - 1) as u64) as usize) as int == a);
    assert((((h + members.len() - 1) as u64) as usize) as int == n + a);
    vstd::arithmetic::div_mod::lemma_mod_add_multiples_vanish(a, n);
    if h <= members.len() {
        vstd::arithmetic::div_mod::lemma_small_mod(a as nat, n as nat);
    }
}

} // verus!
