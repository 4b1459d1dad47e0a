//! Reconnection timing of the trade feed: after a session ends the client
//! waits, doubling the wait each time up to a ceiling.

use vstd::prelude::*;
use vstd::arithmetic::power2::{pow2, lemma_pow2_unfold, lemma_pow2_pos};

verus! {

/// The first wait after a session ends.
pub const INITIAL_BACKOFF_MS: u64 = 1_000;

/// The longest wait between sessions.
pub const MAX_BACKOFF_MS: u64 = 60_000;

/// Twice the wait, at most the ceiling.
pub open spec fn backoff_step(backoff_ms: int) -> int {
    if 2 * backoff_ms < MAX_BACKOFF_MS {
        2 * backoff_ms
    } else {
        MAX_BACKOFF_MS as int
    }
}

/// The wait after `n` sessions have ended in a row, starting from
/// `INITIAL_BACKOFF_MS`.
pub open spec fn backoff_after(n: nat) -> int
    decreases n,
{
    if n == 0 {
        INITIAL_BACKOFF_MS as int
    } else {
        backoff_step(backoff_after((n - 1) as nat))
    }
}

/// The wait after the next session: twice the current one, at most
/// `MAX_BACKOFF_MS`.
pub fn next_backoff(backoff_ms: u64) -> (r: u64)
    requires
        backoff_ms <= u64::MAX / 2,
    ensures
        r == backoff_step(backoff_ms as int),
{
    let doubled = backoff_ms * 2;
    if doubled < MAX_BACKOFF_MS {
        doubled
    } else {
        MAX_BACKOFF_MS
    }
}

/// The reconnection wait never falls and never exceeds the ceiling: from
/// any wait at most the ceiling, the next is at least as long and at most
/// the ceiling, and it doubles until it reaches the ceiling.
pub proof fn law_backoff_bounded(backoff_ms: u64)
    requires
        backoff_ms <= MAX_BACKOFF_MS,
    ensures
        ({
            let next = if 2 * backoff_ms < MAX_BACKOFF_MS { 2 * backoff_ms } else { MAX_BACKOFF_MS as int };
            &&& backoff_ms <= next <= MAX_BACKOFF_MS
            &&& 2 * backoff_ms <= MAX_BACKOFF_MS ==> next == 2 * backoff_ms
        }),
{
}

/// Over any number of failed sessions in a row the wait is the first wait
/// doubled that many times, capped at the ceiling; it never falls and
/// never leaves the range from the first wait to the ceiling.
pub proof fn law_backoff_sequence(n: nat)
    ensures
        backoff_after(n) == (if INITIAL_BACKOFF_MS * pow2(n) < MAX_BACKOFF_MS {
            INITIAL_BACKOFF_MS * pow2(n)
        } else {
            MAX_BACKOFF_MS as int
        }),
        INITIAL_BACKOFF_MS <= backoff_after(n) <= MAX_BACKOFF_MS,
        backoff_after(n) <= backoff_after(n + 1),
    decreases n,
{
    lemma_pow2_pos(n);
    lemma_pow2_unfold(n + 1);
    if n > 0 {
        law_backoff_sequence((n - 1) as nat);
        lemma_pow2_unfold(n);
    } else {
        assert(pow2(0) == 1) by {
            vstd::arithmetic::power2::lemma2_to64();
        }
    }
}
} // verus!
