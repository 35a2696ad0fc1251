//! Arithmetic on a monotonic clock that counts milliseconds.

use vstd::prelude::*;

verus! {

/// Milliseconds from `since_ms` to `now_ms`, zero where the clock reads
/// earlier than `since_ms`.
pub open spec fn elapsed(since_ms: int, now_ms: int) -> int {
    if now_ms >= since_ms {
        now_ms - since_ms
    } else {
        0
    }
}

/// The time that has passed since `since_ms` on a clock that now reads
/// `now_ms`. It saturates at zero and never wraps.
pub fn elapsed_ms(since_ms: u64, now_ms: u64) -> (e: u64)
    ensures
        e == elapsed(since_ms as int, now_ms as int),
{
    if now_ms >= since_ms {
        now_ms - since_ms
    } else {
        0
    }
}

/// Whether at least `interval_ms` have passed since `since_ms`: the test
/// that ends a wait, a timeout or a tick.
pub fn interval_elapsed(since_ms: u64, now_ms: u64, interval_ms: u64) -> (over: bool)
    ensures
        over == (elapsed(since_ms as int, now_ms as int) >= interval_ms),
{
    elapsed_ms(since_ms, now_ms) >= interval_ms
}

} // verus!
