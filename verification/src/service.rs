//! The decisions of the network service: the codec handshake that gates
//! transfers, what becomes of a transfer request to a peer, redials of
//! lost peers, and which connections are kept.

use vstd::prelude::*;
use crate::gateway::{hex_encode, spec_hex_encode, str_eq};
use crate::hashing::digest_eq;
use crate::peer_cache::{peer_id_from_multiaddr, spec_peer_of};
use crate::pex::{copy_bytes, spec_addr_view, spec_part_view, Addr, AddrPart};
use crate::protocol::{HandshakeRequest, HandshakeResponse, TRANSFER_PROTOCOL};

verus! {

/// The network service; its event loop runs outside the verified core and
/// asks the functions of this module what to do.
pub struct NetworkService;

/// The text of a refused handshake: the protocol and fingerprint expected.
pub open spec fn spec_mismatch_message(local_fp: [u8; 32]) -> Seq<char> {
    "transfer mismatch: expected proto="@ + TRANSFER_PROTOCOL@ + " fp="@ + spec_hex_encode(local_fp@)
}

/// The answer to a peer's handshake: accepted exactly when it speaks our
/// transfer protocol with our codec fingerprint, and otherwise with a
/// message that names both.
pub fn answer_handshake(request: &HandshakeRequest, local_fp: &[u8; 32], node_version: &str) -> (res: HandshakeResponse)
    ensures
        res.ok == (request.transfer_protocol@ == TRANSFER_PROTOCOL@ && request.transfer_codec_fingerprint == *local_fp),
        res.node_version@ == node_version@,
        res.transfer_protocol@ == TRANSFER_PROTOCOL@,
        res.transfer_codec_fingerprint == *local_fp,
        res.ok ==> res.message is None,
        !res.ok ==> (res.message matches Some(m) && m@ == spec_mismatch_message(*local_fp)),
{
    let ok = str_eq(request.transfer_protocol.as_str(), TRANSFER_PROTOCOL)
        && digest_eq(&request.transfer_codec_fingerprint, local_fp);
    let message = if ok {
        None
    } else {
        let hex = hex_encode(local_fp);
        Some(String::from_str("transfer mismatch: expected proto=").concat(TRANSFER_PROTOCOL).concat(" fp=").concat(hex.as_str()))
    };
    HandshakeResponse {
        ok,
        node_version: String::from_str(node_version),
        transfer_protocol: String::from_str(TRANSFER_PROTOCOL),
        transfer_codec_fingerprint: *local_fp,
        message,
    }
}

/// Whether a peer's reply to our handshake opens transfers: it accepted,
/// and it speaks our protocol with our fingerprint.
pub fn handshake_accepted(response: &HandshakeResponse, local_fp: &[u8; 32]) -> (res: bool)
    ensures
        res == (response.ok && response.transfer_protocol@ == TRANSFER_PROTOCOL@
            && response.transfer_codec_fingerprint == *local_fp),
{
    response.ok && str_eq(response.transfer_protocol.as_str(), TRANSFER_PROTOCOL)
        && digest_eq(&response.transfer_codec_fingerprint, local_fp)
}

/// The most transfer requests held for a peer whose handshake is pending.
pub const TRANSFER_BUFFER_LIMIT: usize = 64;

/// What becomes of a transfer request.
#[derive(Debug)]
pub enum JobRoute<J> {
    /// The peer is blocked: the request is dropped.
    Drop,
    /// The handshake is not done: the request waits in the peer's queue.
    Buffered,
    /// The request goes out now.
    Send(J),
}

/// Where one peer stands for transfers.
#[derive(Debug)]
pub struct PeerTransfer<J> {
    /// A handshake we sent is unanswered.
    pub handshake_inflight: bool,
    /// The handshake succeeded: transfers go out.
    pub ready: bool,
    /// The handshake failed: transfers are dropped.
    pub blocked: bool,
    /// Requests waiting for the handshake, oldest first.
    pub queue: Vec<J>,
}

impl<J> PeerTransfer<J> {
    /// A peer is never both ready and blocked, requests wait only while
    /// neither holds, and no more than the limit of them.
    pub open spec fn wf(&self) -> bool {
        &&& !(self.ready && self.blocked)
        &&& (self.ready || self.blocked) ==> self.queue@.len() == 0
        &&& self.queue@.len() <= TRANSFER_BUFFER_LIMIT
    }

    /// A peer we know nothing of yet.
    pub fn new() -> (res: Self)
        ensures
            res.wf(),
            !res.handshake_inflight && !res.ready && !res.blocked,
            res.queue@.len() == 0,
    {
        PeerTransfer { handshake_inflight: false, ready: false, blocked: false, queue: Vec::new() }
    }

    /// A connection to the peer came up: whether to send a handshake now,
    /// which is when none was sent and none has settled.
    pub fn on_connected(&mut self) -> (send_handshake: bool)
        requires
            old(self).wf(),
        ensures
            final(self).wf(),
            send_handshake == (!old(self).ready && !old(self).handshake_inflight && !old(self).blocked),
            final(self).handshake_inflight == (old(self).handshake_inflight || send_handshake),
            final(self).ready == old(self).ready,
            final(self).blocked == old(self).blocked,
            final(self).queue@ == old(self).queue@,
    {
        if !self.ready && !self.handshake_inflight && !self.blocked {
            self.handshake_inflight = true;
            true
        } else {
            false
        }
    }

    /// A transfer request for the peer: dropped when the peer is blocked,
    /// sent when it is ready, and otherwise queued, the oldest queued
    /// request giving way when the queue is full.
    pub fn on_transfer_job(&mut self, job: J) -> (res: JobRoute<J>)
        requires
            old(self).wf(),
        ensures
            final(self).wf(),
            final(self).handshake_inflight == old(self).handshake_inflight,
            final(self).ready == old(self).ready,
            final(self).blocked == old(self).blocked,
            old(self).blocked ==> res is Drop && final(self).queue@ == old(self).queue@,
            !old(self).blocked && old(self).ready ==> (res matches JobRoute::Send(j) && j == job
                && final(self).queue@ == old(self).queue@),
            !old(self).blocked && !old(self).ready ==> res is Buffered && final(self).queue@ == (
                if old(self).queue@.len() >= TRANSFER_BUFFER_LIMIT { old(self).queue@.drop_first() } else { old(self).queue@ }
            ).push(job),
    {
        if self.blocked {
            return JobRoute::Drop;
        }
        if !self.ready {
            if self.queue.len() >= TRANSFER_BUFFER_LIMIT {
                let ghost before = self.queue@;
                let _oldest = self.queue.remove(0);
                assert(self.queue@ =~= before.drop_first());
            }
            self.queue.push(job);
            return JobRoute::Buffered;
        }
        JobRoute::Send(job)
    }

    /// The handshake settled with `ok`, either on a reply to ours
    /// (`outbound`, which is then no longer in flight) or on the peer's
    /// own request, or a transfer failed to decode (`ok` false, not
    /// `outbound`). On success the peer is ready and its queued requests
    /// are handed back, oldest first, to go out now; on failure it is
    /// blocked and its queue is dropped.
    pub fn on_handshake_result(&mut self, ok: bool, outbound: bool) -> (flush: Vec<J>)
        requires
            old(self).wf(),
        ensures
            final(self).wf(),
            final(self).handshake_inflight == (old(self).handshake_inflight && !outbound),
            final(self).ready == ok,
            final(self).blocked == !ok,
            final(self).queue@.len() == 0,
            ok ==> flush@ == old(self).queue@,
            !ok ==> flush@.len() == 0,
    {
        if outbound {
            self.handshake_inflight = false;
        }
        let mut taken: Vec<J> = Vec::new();
        std::mem::swap(&mut taken, &mut self.queue);
        if ok {
            self.blocked = false;
            self.ready = true;
            taken
        } else {
            self.ready = false;
            self.blocked = true;
            Vec::new()
        }
    }

    /// A connection to the peer closed and `remaining` are still up: with
    /// none left everything about the peer is forgotten; otherwise a
    /// handshake that has not settled may be sent again.
    pub fn on_disconnected(&mut self, remaining: u32)
        requires
            old(self).wf(),
        ensures
            final(self).wf(),
            remaining == 0 ==> !final(self).handshake_inflight && !final(self).ready && !final(self).blocked
                && final(self).queue@.len() == 0,
            remaining != 0 ==> final(self).ready == old(self).ready && final(self).blocked == old(self).blocked
                && final(self).queue@ == old(self).queue@
                && final(self).handshake_inflight == (old(self).handshake_inflight && (old(self).ready || old(self).blocked)),
    {
        if remaining == 0 {
            self.handshake_inflight = false;
            self.ready = false;
            self.blocked = false;
            self.queue = Vec::new();
        } else if !self.ready && !self.blocked {
            self.handshake_inflight = false;
        }
    }
}

/// In a well-formed peer state a ready peer is not blocked and holds no
/// queued requests, and a blocked peer is not ready.
pub proof fn lemma_send_only_when_ready<J>(p: PeerTransfer<J>)
    requires
        p.wf(),
    ensures
        p.ready ==> !p.blocked && p.queue@.len() == 0,
        p.blocked ==> !p.ready,
{
}

/// The most redial attempts for a lost peer.
pub const REDIAL_MAX_ATTEMPTS: u32 = 20;

/// The first redial of a lost peer waits this long.
pub const REDIAL_FIRST_DELAY_MS: u64 = 250;

/// When a lost peer is next dialled, and how often it was.
#[derive(Clone, Copy, Debug, PartialEq, Eq)]
pub struct RedialState {
    pub next_attempt_at_ms: u64,
    pub attempts: u32,
}

/// What a redial tick does for one lost peer.
#[derive(Clone, Copy, Debug, PartialEq, Eq)]
pub enum RedialStep {
    /// Its time has not come.
    Wait,
    /// It was tried often enough: forget it.
    GiveUp,
    /// Dial it now; the state after.
    Dial(RedialState),
}

/// The wait after the `attempts`-th redial, in seconds: doubling from two,
/// at most thirty.
pub open spec fn spec_backoff_secs(attempts: u32) -> u64 {
    let e: u32 = if attempts < 5 { attempts } else { 5 };
    let d = vstd::arithmetic::power2::pow2(e as nat);
    if d < 30 { d as u64 } else { 30 }
}

/// The wait after the `attempts`-th redial, in seconds.
pub fn redial_backoff_secs(attempts: u32) -> (res: u64)
    ensures
        res == spec_backoff_secs(attempts),
        1 <= res <= 30,
{
    let d: u64 = if attempts == 0 {
        1
    } else if attempts == 1 {
        2
    } else if attempts == 2 {
        4
    } else if attempts == 3 {
        8
    } else if attempts == 4 {
        16
    } else {
        32
    };
    proof {
        vstd::arithmetic::power2::lemma2_to64();
    }
    if d < 30 { d } else { 30 }
}

/// A lost peer's first redial.
pub fn initial_redial(now_ms: u64) -> (res: RedialState)
    requires
        now_ms <= u64::MAX - REDIAL_FIRST_DELAY_MS,
    ensures
        res.next_attempt_at_ms == now_ms + REDIAL_FIRST_DELAY_MS,
        res.attempts == 0,
{
    RedialState { next_attempt_at_ms: now_ms + REDIAL_FIRST_DELAY_MS, attempts: 0 }
}

/// One redial tick for a lost peer at `now_ms`: wait until its time, give
/// up after the most attempts, or dial it and wait longer next time.
pub fn redial_step(state: RedialState, now_ms: u64) -> (res: RedialStep)
    requires
        now_ms <= u64::MAX - 30_000,
    ensures
        now_ms < state.next_attempt_at_ms ==> res is Wait,
        now_ms >= state.next_attempt_at_ms && state.attempts >= REDIAL_MAX_ATTEMPTS ==> res is GiveUp,
        now_ms >= state.next_attempt_at_ms && state.attempts < REDIAL_MAX_ATTEMPTS ==> res == RedialStep::Dial(RedialState {
            next_attempt_at_ms: (now_ms + spec_backoff_secs((state.attempts + 1) as u32) * 1000) as u64,
            attempts: (state.attempts + 1) as u32,
        }),
{
    if now_ms < state.next_attempt_at_ms {
        return RedialStep::Wait;
    }
    if state.attempts >= REDIAL_MAX_ATTEMPTS {
        return RedialStep::GiveUp;
    }
    let attempts = state.attempts + 1;
    let backoff = redial_backoff_secs(attempts);
    RedialStep::Dial(RedialState { next_attempt_at_ms: now_ms + backoff * 1000, attempts })
}

/// What becomes of a new connection.
#[derive(Clone, Copy, Debug, PartialEq, Eq, Structural)]
pub enum ConnectionVerdict {
    /// Inbound, and the inbound limit is reached.
    InboundLimit,
    /// The limit on all connections is reached.
    TotalLimit,
    /// The peer has more connections than one peer may.
    PerPeerLimit,
    /// Kept.
    Accept,
}

/// The limit on all connections: the one under memory pressure while
/// memory throttling is on and the pressure holds, else the usual one;
/// at least one.
pub fn effective_max_total(throttle: bool, pressure: bool, max_under_pressure: usize, max_total: usize) -> (res: usize)
    ensures
        res == (if throttle && pressure {
            if max_under_pressure < 1 { 1 } else { max_under_pressure }
        } else {
            if max_total < 1 { 1 } else { max_total }
        }),
{
    let m = if throttle && pressure { max_under_pressure } else { max_total };
    if m < 1 { 1 } else { m }
}

/// Whether a connection is kept: an inbound one past the inbound limit is
/// closed first, then one past the limit on all connections, then one
/// past the limit per peer (counting this one).
pub fn admit_connection(
    inbound: bool,
    inbound_connections: usize,
    max_inbound: usize,
    total_connections: usize,
    max_total: usize,
    established_to_peer: u32,
    max_per_peer: usize,
) -> (res: ConnectionVerdict)
    ensures
        res == (if inbound && inbound_connections >= max_inbound {
            ConnectionVerdict::InboundLimit
        } else if total_connections >= max_total {
            ConnectionVerdict::TotalLimit
        } else if established_to_peer > max_per_peer {
            ConnectionVerdict::PerPeerLimit
        } else {
            ConnectionVerdict::Accept
        }),
{
    if inbound && inbound_connections >= max_inbound {
        ConnectionVerdict::InboundLimit
    } else if total_connections >= max_total {
        ConnectionVerdict::TotalLimit
    } else if (established_to_peer as usize) > max_per_peer {
        ConnectionVerdict::PerPeerLimit
    } else {
        ConnectionVerdict::Accept
    }
}

/// How many connected peers a peer exchange tick asks.
pub const PEX_PEERS_PER_TICK: usize = 3;

/// Whether a peer exchange tick asks for peers: when it is on, fewer peers
/// than wanted are connected, and memory is not under pressure.
pub fn pex_request_due(enabled: bool, peer_count: usize, target_peers: usize, memory_pressure: bool) -> (res: bool)
    ensures
        res == (enabled && peer_count < target_peers && !memory_pressure),
{
    enabled && peer_count < target_peers && !memory_pressure
}

/// An address with a peer component: unchanged when it has one, else with
/// one for `peer` appended.
pub fn ensure_p2p_component(addr: Addr, peer: &Vec<u8>) -> (res: Addr)
    ensures
        spec_peer_of(addr.parts@) is Some ==> res.parts@ == addr.parts@,
        spec_peer_of(addr.parts@) is None ==> spec_addr_view(res) == spec_addr_view(addr).push((1int, peer@)),
{
    if peer_id_from_multiaddr(&addr).is_some() {
        return addr;
    }
    let ghost before = addr.parts@;
    let mut out = addr;
    let part = AddrPart::P2p(copy_bytes(peer));
    out.parts.push(part);
    proof {
        let f = |p: AddrPart| spec_part_view(p);
        assert(out.parts@.map_values(f) =~= before.map_values(f).push(spec_part_view(part)));
    }
    out
}

} // verus!
