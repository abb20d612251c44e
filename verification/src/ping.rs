//! Keep-alive: a ping carries a random nonce that the pong echoes, and a
//! peer that fails too many pings in a row is disconnected.

use vstd::prelude::*;
use crate::hashing::random_bytes32;

verus! {

/// Name of the keep-alive protocol.
pub const PING_PROTOCOL: &'static str = "/onvm/ping/1.0.0";

/// A keep-alive probe.
#[derive(Clone, Copy, Debug, PartialEq, Eq)]
pub struct PingRequest {
    pub nonce: [u8; 32],
    pub sent_at_ms: u64,
}

/// The answer to a probe.
#[derive(Clone, Copy, Debug, PartialEq, Eq)]
pub struct PongResponse {
    pub nonce: [u8; 32],
    pub received_at_ms: u64,
}

/// A probe sent at `sent_at_ms`, with a fresh random nonce.
pub fn new_ping(sent_at_ms: u64) -> (res: PingRequest)
    ensures
        res.sent_at_ms == sent_at_ms,
{
    PingRequest { nonce: random_bytes32(), sent_at_ms }
}

/// The answer to a probe received at `received_at_ms`: its nonce, echoed.
pub fn answer_ping(request: &PingRequest, received_at_ms: u64) -> (res: PongResponse)
    ensures
        res.nonce == request.nonce,
        res.received_at_ms == received_at_ms,
{
    PongResponse { nonce: request.nonce, received_at_ms }
}

/// The failure count after one more failed probe (it stops at the
/// largest count), and whether it reached `max_failures`, so that the
/// peer is disconnected.
pub fn record_ping_failure(failures: u32, max_failures: u32) -> (res: (u32, bool))
    ensures
        res.0 == (if failures < u32::MAX { failures + 1 } else { failures as int }),
        res.1 == (res.0 >= max_failures),
{
    let count = failures.saturating_add(1);
    (count, count >= max_failures)
}

} // verus!
