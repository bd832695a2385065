//! The fan-out of each emitted (timestamp, value) pair to both consumers.
//!
//! The producer hands every pair to two single-slot channels, one per return
//! path. The hand-off is joint: it succeeds into both slots or — when either
//! consumer is gone — fails without touching either, so the two latency
//! measurements always observe one consistent stream of test values.

use vstd::prelude::*;

use crate::correlate::PendingTest;

verus! {

/// The pair of capacity-one hand-off slots, one per consumer.
pub struct FanOut {
    pub ipc_slot: Option<PendingTest>,
    pub broadcast_slot: Option<PendingTest>,
}

impl FanOut {
    /// Both slots start empty.
    pub fn new() -> (r: FanOut)
        ensures
            r.ipc_slot is None,
            r.broadcast_slot is None,
    {
        FanOut { ipc_slot: None, broadcast_slot: None }
    }

    /// Fan-out atomicity: publishing succeeds exactly when both consumers are
    /// still connected, and then both slots hold the published pair; on
    /// failure neither slot changes, so no consumer ever observes a value the
    /// other never will.
    pub fn publish(&mut self, t: PendingTest, ipc_connected: bool, broadcast_connected: bool) -> (r:
        bool)
        ensures
            r == (ipc_connected && broadcast_connected),
            r ==> final(self).ipc_slot == Some(t) && final(self).broadcast_slot == Some(t),
            !r ==> *final(self) == *old(self),
    {
        if ipc_connected && broadcast_connected {
            self.ipc_slot = Some(t);
            self.broadcast_slot = Some(t);
            true
        } else {
            false
        }
    }

    /// The IPC consumer drains its slot: it takes whatever was there and
    /// leaves the slot empty; the other slot is untouched.
    pub fn take_ipc(&mut self) -> (r: Option<PendingTest>)
        ensures
            r == old(self).ipc_slot,
            final(self).ipc_slot is None,
            final(self).broadcast_slot == old(self).broadcast_slot,
    {
        let taken = self.ipc_slot;
        self.ipc_slot = None;
        taken
    }

    /// The broadcast consumer drains its slot, leaving the other untouched.
    pub fn take_broadcast(&mut self) -> (r: Option<PendingTest>)
        ensures
            r == old(self).broadcast_slot,
            final(self).broadcast_slot is None,
            final(self).ipc_slot == old(self).ipc_slot,
    {
        let taken = self.broadcast_slot;
        self.broadcast_slot = None;
        taken
    }
}

} // verus!
