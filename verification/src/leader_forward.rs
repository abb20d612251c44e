//! Forwarding a call to the leader: which node is asked next, when to run
//! the call locally and when to give up, and the peer that serves a node.

use vstd::prelude::*;
use crate::engine::{forward_queue, spec_others};
use crate::hashing::digest_eq;
use crate::keys::ed25519_public_valid;
use crate::types::{CommitteeCertificate, NodeId};

verus! {

/// The bytes of the peer id of an Ed25519 public key: the identity
/// multihash (code 0, length 36) of the key's protobuf encoding (key type 1,
/// then the 32 key bytes).
pub open spec fn spec_ed25519_peer_id(key: Seq<u8>) -> Seq<u8> {
    seq![0u8, 36u8, 8u8, 1u8, 18u8, 32u8] + key
}

/// Calls `libp2p_identity::ed25519::PublicKey::try_from_bytes`, then
/// `PeerId::from` on the key, and gives the peer id's bytes. The decoding
/// takes 32 bytes and fails exactly where
/// `ed25519_dalek::VerifyingKey::from_bytes` fails; the peer id of an
/// Ed25519 key is the identity multihash of its protobuf encoding.
#[verifier::external_body]
fn libp2p_ed25519_peer_id(key: &[u8; 32]) -> (res: Option<Vec<u8>>)
    ensures
        res is Some <==> ed25519_public_valid(key@),
        res matches Some(b) ==> b@ == spec_ed25519_peer_id(key@),
{
    let pk = libp2p_identity::ed25519::PublicKey::try_from_bytes(key).ok()?;
    Some(libp2p_identity::PeerId::from(libp2p_identity::PublicKey::from(pk)).to_bytes())
}

/// The bytes of the peer id that serves `node`: none when the node id is
/// not a valid Ed25519 public key.
pub fn peer_id_for_node_id(node: &NodeId) -> (res: Option<Vec<u8>>)
    ensures
        res is Some <==> ed25519_public_valid(node.0@),
        res matches Some(b) ==> b@ == spec_ed25519_peer_id(node.0@),
{
    libp2p_ed25519_peer_id(&node.0)
}

/// What to do next while forwarding a call.
#[derive(Clone, Copy, Debug, PartialEq, Eq)]
pub enum ForwardStep {
    /// Send the call to this node.
    Ask(NodeId),
    /// This node is the one to run the call: run it here.
    RunLocally,
    /// No node is left to ask, or too many were asked: the call fails.
    GiveUp,
}

/// What a node answered to a forwarded call.
#[derive(Clone, Copy, Debug, PartialEq, Eq)]
pub enum LeaderReply {
    /// The request failed or timed out.
    Unreachable,
    /// The node ran the call; its outcome is the answer.
    Outcome,
    /// The node is not the leader and names the one it believes is.
    Redirect(NodeId),
    /// The node refused the call with an error.
    Error,
}

/// What follows a reply.
#[derive(Clone, Copy, Debug, PartialEq, Eq)]
pub enum ReplyAction {
    /// Ask the next node.
    Continue,
    /// The call is answered: return the outcome.
    Finish,
    /// The call failed with the node's error.
    Fail,
}

/// The state of forwarding one call: the nodes still to ask, in order, the
/// nodes already asked, and how many were asked out of how many may be.
pub struct LeaderForward {
    pub queue: Vec<NodeId>,
    pub attempted: Vec<NodeId>,
    pub attempts: usize,
    pub limit: usize,
}

/// The next step from a queue, the nodes asked so far, the count of asks
/// and its limit, at node `local`: nodes already asked are skipped; the
/// step comes with the queue, asked nodes and count after it.
pub open spec fn spec_next_step(
    queue: Seq<NodeId>,
    attempted: Seq<NodeId>,
    attempts: int,
    limit: int,
    local: NodeId,
) -> (ForwardStep, Seq<NodeId>, Seq<NodeId>, int)
    decreases queue.len(),
{
    if queue.len() == 0 {
        (ForwardStep::GiveUp, queue, attempted, attempts)
    } else {
        let target = queue[0];
        let rest = queue.drop_first();
        if attempted.contains(target) {
            spec_next_step(rest, attempted, attempts, limit, local)
        } else {
            let a = attempts + 1;
            let step = if a > limit {
                ForwardStep::GiveUp
            } else if target == local {
                ForwardStep::RunLocally
            } else {
                ForwardStep::Ask(target)
            };
            (step, rest, attempted.push(target), a)
        }
    }
}

/// A forwarded call never goes twice to the same node, and no node is asked
/// once the count of asks would pass its limit: a node that is asked (or the
/// local node, when it runs the call) was not asked before, is recorded as
/// asked, and the count stays within the limit.
pub proof fn lemma_next_step_asks_each_once(
    queue: Seq<NodeId>,
    attempted: Seq<NodeId>,
    attempts: int,
    limit: int,
    local: NodeId,
)
    ensures
        ({
            let (step, q, t, a) = spec_next_step(queue, attempted, attempts, limit, local);
            &&& step matches ForwardStep::Ask(node) ==> !attempted.contains(node) && t.contains(node) && node != local
            &&& step is RunLocally ==> !attempted.contains(local) && t.contains(local)
            &&& !(step is GiveUp) ==> a <= limit
            &&& forall|n: NodeId| attempted.contains(n) ==> t.contains(n)
        }),
    decreases queue.len(),
{
    if queue.len() > 0 {
        let target = queue[0];
        if attempted.contains(target) {
            lemma_next_step_asks_each_once(queue.drop_first(), attempted, attempts, limit, local);
        } else {
            let t = attempted.push(target);
            assert(t[attempted.len() as int] == target);
            assert forall|n: NodeId| attempted.contains(n) implies t.contains(n) by {
                let k = choose|k: int| 0 <= k < attempted.len() && attempted[k] == n;
                assert(t[k] == n);
            }
        }
    }
}

/// The action that follows a reply.
pub open spec fn spec_reply_action(reply: LeaderReply) -> ReplyAction {
    match reply {
        LeaderReply::Unreachable => ReplyAction::Continue,
        LeaderReply::Outcome => ReplyAction::Finish,
        LeaderReply::Redirect(_) => ReplyAction::Continue,
        LeaderReply::Error => ReplyAction::Fail,
    }
}

fn node_in(list: &Vec<NodeId>, node: &NodeId) -> (res: bool)
    ensures
        res == list@.contains(*node),
{
    let mut i: usize = 0;
    while i < list.len()
        invariant
            i <= list@.len(),
            forall|j: int| 0 <= j < i ==> list@[j] != *node,
        decreases list@.len() - i,
    {
        if digest_eq(&list[i].0, &node.0) {
            assert(list@[i as int] == *node);
            return true;
        }
        i = i + 1;
    }
    false
}

impl LeaderForward {
    /// Whether the count of asks stays within one more than its limit.
    pub open spec fn wf(&self) -> bool {
        self.attempts <= self.limit
    }

    /// Forwarding a call for `committee`: the presumed leader first, then
    /// every other member in committee order; at most four asks more than
    /// the committee has members.
    pub fn new(committee: &CommitteeCertificate, leader_hint: &NodeId) -> (res: Self)
        ensures
            res.wf(),
            res.queue@ == seq![*leader_hint] + spec_others(committee.members@, *leader_hint),
            res.attempted@ == Seq::<NodeId>::empty(),
            res.attempts == 0,
            res.limit as int == (if committee.members@.len() + 4 > usize::MAX { usize::MAX as int } else { committee.members@.len() + 4int }),
    {
        LeaderForward {
            queue: forward_queue(committee, leader_hint),
            attempted: Vec::new(),
            attempts: 0,
            limit: committee.members.len().saturating_add(4),
        }
    }

    /// The next node to ask at node `local`, or whether to run the call
    /// locally or give up.
    pub fn next_step(&mut self, local: &NodeId) -> (res: ForwardStep)
        requires
            old(self).wf(),
        ensures
            ({
                let (step, queue, attempted, attempts) = spec_next_step(
                    old(self).queue@, old(self).attempted@, old(self).attempts as int, old(self).limit as int, *local);
                &&& res == step
                &&& final(self).queue@ == queue
                &&& final(self).attempted@ == attempted
                &&& final(self).attempts as int == if attempts > old(self).limit { old(self).limit as int } else { attempts }
                &&& final(self).limit == old(self).limit
            }),
    {
        let ghost q0 = self.queue@;
        let ghost t0 = self.attempted@;
        let ghost a0 = self.attempts as int;
        loop
            invariant
                self.attempts <= self.limit,
                self.limit == old(self).limit,
                spec_next_step(self.queue@, self.attempted@, self.attempts as int, self.limit as int, *local)
                    == spec_next_step(q0, t0, a0, self.limit as int, *local),
                q0 == old(self).queue@,
                t0 == old(self).attempted@,
                a0 == old(self).attempts as int,
            decreases self.queue@.len(),
        {
            if self.queue.len() == 0 {
                return ForwardStep::GiveUp;
            }
            let target = self.queue.remove(0);
            if node_in(&self.attempted, &target) {
                continue;
            }
            self.attempted.push(target);
            if self.attempts >= self.limit {
                return ForwardStep::GiveUp;
            }
            self.attempts = self.attempts + 1;
            if digest_eq(&target.0, &local.0) {
                return ForwardStep::RunLocally;
            }
            return ForwardStep::Ask(target);
        }
    }

    /// What follows a node's reply; a redirect puts the named node first.
    pub fn on_reply(&mut self, reply: LeaderReply) -> (res: ReplyAction)
        ensures
            res == spec_reply_action(reply),
            final(self).queue@ == (match reply {
                LeaderReply::Redirect(leader) => seq![leader] + old(self).queue@,
                _ => old(self).queue@,
            }),
            final(self).attempted@ == old(self).attempted@,
            final(self).attempts == old(self).attempts,
            final(self).limit == old(self).limit,
    {
        match reply {
            LeaderReply::Unreachable => ReplyAction::Continue,
            LeaderReply::Outcome => ReplyAction::Finish,
            LeaderReply::Redirect(leader) => {
                self.queue.insert(0, leader);
                assert(self.queue@ =~= seq![leader] + old(self).queue@);
                ReplyAction::Continue
            },
            LeaderReply::Error => ReplyAction::Fail,
        }
    }
}

} // verus!
