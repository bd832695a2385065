//! Latency correlation against the pending emitted test value.
//!
//! Each return path (IPC echo, broadcast echo) holds at most one pending
//! test. An inbound value that equals the pending one — exact equality of
//! the 32-bit patterns — clears the slot and reports the elapsed time; any
//! other value leaves the slot as it was.

use vstd::prelude::*;

use crate::msg::spec_position_x;
use crate::msg::Message;

verus! {

/// One in-flight emitted test value awaiting an echo: the timestamp it was
/// sent at (microseconds on the process's monotonic clock) and the bit
/// pattern of the emitted coordinate.
#[derive(Clone, Copy, PartialEq, Eq, Structural, Debug)]
pub struct PendingTest {
    pub sent_at: u64,
    pub value_bits: u32,
}

/// Time elapsed between sending and observing, never negative: a monotonic
/// clock never runs backwards, and if a caller's clock did, the elapsed time
/// reported is zero rather than nonsense.
pub open spec fn spec_elapsed(sent_at: u64, now: u64) -> u64 {
    if now >= sent_at {
        (now - sent_at) as u64
    } else {
        0
    }
}

/// The reference for one correlation step: the new pending slot and the
/// reported elapsed time, if any.
pub open spec fn spec_correlate(
    pending: Option<PendingTest>,
    observed: Option<u32>,
    now: u64,
) -> (Option<PendingTest>, Option<u64>) {
    match (pending, observed) {
        (Some(p), Some(x)) => {
            if x == p.value_bits {
                (None, Some(spec_elapsed(p.sent_at, now)))
            } else {
                (pending, None)
            }
        },
        _ => (pending, None),
    }
}

/// One correlation step, exactly the reference: an exact match clears the
/// pending test and reports the elapsed time; anything else changes nothing
/// and reports nothing.
pub fn correlate_step(pending: Option<PendingTest>, observed: Option<u32>, now: u64) -> (r: (
    Option<PendingTest>,
    Option<u64>,
))
    ensures
        r == spec_correlate(pending, observed, now),
{
    match (pending, observed) {
        (Some(p), Some(x)) => {
            if x == p.value_bits {
                let elapsed = if now >= p.sent_at {
                    now - p.sent_at
                } else {
                    0
                };
                (None, Some(elapsed))
            } else {
                (pending, None)
            }
        },
        _ => (pending, None),
    }
}

/// A consumer takes a newly published value only while it holds no pending
/// test; this is the single-slot discipline that makes the latest published
/// value the one that matters.
pub fn should_fetch(pending: &Option<PendingTest>) -> (r: bool)
    ensures
        r == (pending is None),
{
    match pending {
        Option::None => true,
        Option::Some(_) => false,
    }
}

/// One step of the IPC receive path: a position update is correlated on its
/// first coordinate; every other message leaves the state alone.
pub fn handle_ipc_message(pending: Option<PendingTest>, m: &Message, now: u64) -> (r: (
    Option<PendingTest>,
    Option<u64>,
))
    ensures
        r == spec_correlate(pending, spec_position_x(m@), now),
{
    let observed = crate::msg::position_x(m);
    correlate_step(pending, observed, now)
}

/// The pending-test slot discipline, for every state and observation:
/// a consumer holding no pending test reports nothing and still holds none;
/// one holding a pending test that sees a non-matching (or no) value keeps
/// exactly that pending test and reports nothing; one that sees the exact
/// value clears the slot and reports an elapsed time.
pub proof fn lemma_pending_slot_discipline(
    pending: Option<PendingTest>,
    observed: Option<u32>,
    now: u64,
)
    ensures
        pending is None ==> spec_correlate(pending, observed, now) == (
            None::<PendingTest>,
            None::<u64>,
        ),
        (match (pending, observed) {
            (Some(p), Some(x)) => x != p.value_bits,
            (Some(p), None) => true,
            _ => false,
        }) ==> spec_correlate(pending, observed, now) == (pending, None::<u64>),
        (pending matches Some(p) && observed == Some(p.value_bits)) ==> spec_correlate(
            pending,
            observed,
            now,
        ) == (None::<PendingTest>, Some(spec_elapsed(pending->Some_0.sent_at, now))),
{
}

} // verus!
