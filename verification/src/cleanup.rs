//! When expired keys are cleaned up without being asked for.
//!
//! Times are in milliseconds of any clock that does not run backwards.
use vstd::prelude::*;

verus! {

/// Whether a cleanup is due at `now_ms` when the last one was at `last_ms`.
pub open spec fn due_at(last_ms: int, now_ms: int, interval_ms: int) -> bool {
    now_ms >= last_ms + interval_ms
}

/// How long it takes from `now_ms` until the next cleanup is due.
pub open spec fn due_in(last_ms: int, now_ms: int, interval_ms: int) -> int {
    if due_at(last_ms, now_ms, interval_ms) {
        0
    } else {
        last_ms + interval_ms - now_ms
    }
}

/// Whether a cleanup is due: the interval has passed since the last one.
pub fn cleanup_due(last_ms: u64, now_ms: u64, interval_ms: u64) -> (due: bool)
    ensures
        due == due_at(last_ms as int, now_ms as int, interval_ms as int),
{
    now_ms >= last_ms && now_ms - last_ms >= interval_ms
}

/// How long to wait until the next cleanup is due, in milliseconds.
pub fn cleanup_wait(last_ms: u64, now_ms: u64, interval_ms: u64) -> (wait_ms: u64)
    requires
        last_ms <= now_ms,
    ensures
        wait_ms == due_in(last_ms as int, now_ms as int, interval_ms as int),
{
    interval_ms.saturating_sub(now_ms - last_ms)
}

} // verus!
