//! Retries of cross-program messages: when a failed delivery is tried
//! again, and when a message is given up.

use vstd::prelude::*;

verus! {

/// Deliveries tried before a message is given up.
pub const MAX_RETRIES: u32 = 5;

/// The wait before the first retry; it doubles with each failure.
pub const BASE_RETRY_DELAY_MS: u64 = 1000;

/// How long a message lives by default.
pub const MESSAGE_EXPIRY_MS: u64 = 300000;

/// Where a queued message stands.
#[derive(Clone, Copy, Debug, PartialEq, Eq, Structural)]
pub enum MessageStatus {
    Pending,
    InFlight,
    Failed,
    ResponseReceived,
}

/// What a failed delivery leads to.
#[derive(Clone, Copy, Debug, PartialEq, Eq, Structural)]
pub enum FailureOutcome {
    /// Given up after `retry_count` tries or past its expiry.
    GiveUp { retry_count: u32 },
    /// Tried again at `next_retry_at`.
    Retry { retry_count: u32, next_retry_at: u64 },
}

/// The wait after the `n`-th failure: the base delay doubled `n` times.
pub open spec fn spec_retry_delay(n: nat) -> int {
    BASE_RETRY_DELAY_MS * vstd::arithmetic::power2::pow2(n)
}

/// A delivery of a message that has failed `retry_count` times failed
/// again at `now_ms`: it is given up when that makes the most tries or the
/// message expired, else tried again after the doubled delay.
pub fn on_delivery_failure(retry_count: u32, expires_at: Option<u64>, now_ms: u64) -> (res: FailureOutcome)
    requires
        retry_count < MAX_RETRIES,
        now_ms <= u64::MAX - 16_000,
    ensures
        ({
            let count = (retry_count + 1) as u32;
            let expired = count >= MAX_RETRIES || (match expires_at {
                Some(e) => now_ms > e,
                None => false,
            });
            if expired {
                res == FailureOutcome::GiveUp { retry_count: count }
            } else {
                res == FailureOutcome::Retry { retry_count: count, next_retry_at: (now_ms + spec_retry_delay(count as nat)) as u64 }
            }
        }),
{
    let count = retry_count + 1;
    let expired = count >= MAX_RETRIES || match expires_at {
        Some(e) => now_ms > e,
        None => false,
    };
    if expired {
        return FailureOutcome::GiveUp { retry_count: count };
    }
    proof {
        vstd::arithmetic::power2::lemma2_to64();
    }
    let factor: u64 = if count == 1 { 2 } else if count == 2 { 4 } else if count == 3 { 8 } else { 16 };
    FailureOutcome::Retry { retry_count: count, next_retry_at: now_ms + BASE_RETRY_DELAY_MS * factor }
}

/// Whether a queued message is due at `now_ms`: pending and past its retry
/// time, or expired.
pub fn retry_due(status: MessageStatus, next_retry_at: u64, expires_at: Option<u64>, now_ms: u64) -> (res: bool)
    ensures
        res == ((status == MessageStatus::Pending && next_retry_at < now_ms) || (match expires_at {
            Some(e) => now_ms > e,
            None => false,
        })),
{
    let pending = match status {
        MessageStatus::Pending => true,
        _ => false,
    };
    (pending && next_retry_at < now_ms) || match expires_at {
        Some(e) => now_ms > e,
        None => false,
    }
}

/// Each retry waits twice as long as the one before, and never less than
/// the base delay.
pub proof fn lemma_retry_backoff_grows(n: nat)
    ensures
        spec_retry_delay(n + 1) == 2 * spec_retry_delay(n),
        spec_retry_delay(n) >= BASE_RETRY_DELAY_MS,
{
    vstd::arithmetic::power2::lemma_pow2_unfold(n + 1);
    vstd::arithmetic::power2::lemma_pow2_pos(n);
    assert(BASE_RETRY_DELAY_MS * vstd::arithmetic::power2::pow2(n + 1) == 2 * (BASE_RETRY_DELAY_MS * vstd::arithmetic::power2::pow2(n))) by (nonlinear_arith)
        requires vstd::arithmetic::power2::pow2(n + 1) == 2 * vstd::arithmetic::power2::pow2(n);
    assert(BASE_RETRY_DELAY_MS * vstd::arithmetic::power2::pow2(n) >= BASE_RETRY_DELAY_MS) by (nonlinear_arith)
        requires vstd::arithmetic::power2::pow2(n) > 0;
}

} // verus!
