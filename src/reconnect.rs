//! Decisions of the client's reconnect loop: back-off between attempts,
//! giving up after repeated unready closes, and the chunked back-off sleep.

use crate::lifecycle::{exceeded_max_failures, record_connection_failure, ClientFlags, MAX_CONSECUTIVE_FAILURES};
use vstd::prelude::*;

verus! {

/// First back-off after a connection closes.
pub const RECONNECT_SLEEP_MIN_MS: u64 = 250;

/// Longest back-off.
pub const RECONNECT_SLEEP_MAX_MS: u64 = 5_000;

/// Longest single sleep of the back-off, so that a stop request is seen in time.
pub const RECONNECT_SLEEP_CHUNK_MS: u64 = 100;

pub open spec fn min_int(a: int, b: int) -> int {
    if a <= b { a } else { b }
}

/// The back-off after `k` consecutive reconnects: 250 ms doubled `k` times,
/// at most 5 s.
pub open spec fn backoff_after(k: nat) -> int
    decreases k,
{
    if k == 0 {
        RECONNECT_SLEEP_MIN_MS as int
    } else {
        min_int(2 * backoff_after((k - 1) as nat), RECONNECT_SLEEP_MAX_MS as int)
    }
}

/// The back-off after one more reconnect: doubled, at most 5 s.
pub fn next_reconnect_delay(delay_ms: u64) -> (r: u64)
    ensures
        r as int == min_int(2 * delay_ms, RECONNECT_SLEEP_MAX_MS as int),
{
    if delay_ms >= RECONNECT_SLEEP_MAX_MS / 2 {
        RECONNECT_SLEEP_MAX_MS
    } else {
        delay_ms * 2
    }
}

/// The next sleep of a back-off with `remaining_ms` left: at most 100 ms.
pub fn reconnect_sleep_chunk(remaining_ms: u64) -> (r: u64)
    ensures
        r == if remaining_ms < RECONNECT_SLEEP_CHUNK_MS { remaining_ms } else { RECONNECT_SLEEP_CHUNK_MS },
        remaining_ms > 0 ==> r > 0,
        r <= remaining_ms,
{
    if remaining_ms < RECONNECT_SLEEP_CHUNK_MS {
        remaining_ms
    } else {
        RECONNECT_SLEEP_CHUNK_MS
    }
}

/// What the reconnect loop does after a connection closed.
#[derive(Clone, Copy, Debug, PartialEq, Eq, Structural)]
pub enum CloseDecision {
    /// Too many consecutive closes before the connection was ready.
    GiveUp,
    /// Sleep the back-off and try again.
    Reconnect,
}

/// Records an unready close and decides whether to try again: the client
/// gives up once `MAX_CONSECUTIVE_FAILURES` closes in a row never reached the
/// ready state.
pub fn on_connection_closed(flags: &mut ClientFlags, became_ready: bool) -> (r: CloseDecision)
    ensures
        became_ready ==> *final(flags) == *old(flags) && r == CloseDecision::Reconnect,
        !became_ready ==> final(flags).consecutive_failures as int == if old(flags).consecutive_failures == u32::MAX {
            u32::MAX as int
        } else {
            old(flags).consecutive_failures + 1
        },
        !became_ready ==> (r == CloseDecision::GiveUp <==> final(flags).consecutive_failures >= MAX_CONSECUTIVE_FAILURES),
{
    if became_ready {
        return CloseDecision::Reconnect;
    }
    record_connection_failure(flags);
    if exceeded_max_failures(flags) {
        CloseDecision::GiveUp
    } else {
        CloseDecision::Reconnect
    }
}

/// Back-off state of the reconnect loop.
#[derive(Clone, Copy, Debug, PartialEq, Eq, Structural)]
pub struct ReconnectBackoff {
    pub delay_ms: u64,
}

impl ReconnectBackoff {
    /// The back-off before any reconnect.
    pub fn new() -> (r: ReconnectBackoff)
        ensures
            r.delay_ms == RECONNECT_SLEEP_MIN_MS,
    {
        ReconnectBackoff { delay_ms: RECONNECT_SLEEP_MIN_MS }
    }

    /// A connection became ready: the next back-off starts over.
    pub fn on_ready(&mut self)
        ensures
            final(self).delay_ms == RECONNECT_SLEEP_MIN_MS,
    {
        self.delay_ms = RECONNECT_SLEEP_MIN_MS;
    }

    /// A back-off was slept: the next one doubles, up to 5 s.
    pub fn after_sleep(&mut self)
        ensures
            final(self).delay_ms as int == min_int(2 * old(self).delay_ms, RECONNECT_SLEEP_MAX_MS as int),
    {
        self.delay_ms = next_reconnect_delay(self.delay_ms);
    }
}

/// Successive back-offs start at 250 ms, never shrink, double until they
/// reach 5 s and stay there: the `k`-th reconnect sleeps `backoff_after(k)`,
/// between 250 ms and 5 s, and a back-off is slept in chunks of at most
/// 100 ms, each followed by a check for a stop request.
pub proof fn lemma_backoff_bounds(k: nat, remaining_ms: u64)
    ensures
        RECONNECT_SLEEP_MIN_MS <= backoff_after(k) <= RECONNECT_SLEEP_MAX_MS,
        backoff_after(k + 1) >= backoff_after(k),
        backoff_after(k + 1) == min_int(2 * backoff_after(k), RECONNECT_SLEEP_MAX_MS as int),
        (if remaining_ms < RECONNECT_SLEEP_CHUNK_MS { remaining_ms } else { RECONNECT_SLEEP_CHUNK_MS }) <= RECONNECT_SLEEP_CHUNK_MS,
    decreases k,
{
    if k > 0 {
        lemma_backoff_bounds((k - 1) as nat, remaining_ms);
    }
}

} // verus!
