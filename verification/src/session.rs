//! The reconnecting session: a state machine from connection events to
//! actions, and the fixed handshake that opens every connection.
//!
//! The channel manager runs `Disconnected -> Established -> Disconnected`
//! forever: a failed open is retried after a fixed delay, a successful open
//! sends the handshake (one `TrackerAdded` frame, then one `TrackerStatus`
//! frame) before anything else, and the death of any supervised task tears
//! the whole group down and waits before reconnecting. The trace law at the
//! bottom proves that a position frame can only ever be emitted after a
//! handshake on the same connection.

use vstd::prelude::*;

use crate::codec::encode_frame;
use crate::codec::spec_frame;
use crate::msg::msg_wf;
use crate::msg::Message;
use crate::msg::MsgView;
use crate::msg::CONFIDENCE_HIGH;
use crate::msg::DATA_SOURCE_FULL;
use crate::msg::QUAT_W_ONE_BITS;
use crate::msg::ROLE_HMD;
use crate::msg::STATUS_OK;

verus! {

/// The serial string of the synthetic tracker, as bytes.
pub open spec fn serial_bytes() -> Seq<u8> {
    seq![
        0x53u8,
        0x6cu8,
        0x69u8,
        0x6du8,
        0x65u8,
        0x56u8,
        0x52u8,
        0x20u8,
        0x4cu8,
        0x61u8,
        0x74u8,
        0x65u8,
        0x6eu8,
        0x63u8,
        0x79u8,
        0x20u8,
        0x54u8,
        0x65u8,
        0x73u8,
        0x74u8,
    ]
}

/// The display name of the synthetic tracker, as bytes.
pub open spec fn name_bytes() -> Seq<u8> {
    seq![
        0x4cu8,
        0x61u8,
        0x74u8,
        0x65u8,
        0x6eu8,
        0x63u8,
        0x79u8,
        0x20u8,
        0x54u8,
        0x65u8,
        0x73u8,
        0x74u8,
        0x65u8,
        0x72u8,
    ]
}

/// The fixed `TrackerAdded` handshake message: one virtual tracker, id 0,
/// declared as a head-mounted device.
pub open spec fn spec_tracker_added_msg() -> MsgView {
    MsgView::TrackerAdded {
        tracker_id: 0,
        serial: serial_bytes(),
        name: name_bytes(),
        role: ROLE_HMD,
    }
}

/// The fixed `TrackerStatus` handshake message: status OK, high confidence.
pub open spec fn spec_tracker_status_msg() -> MsgView {
    MsgView::TrackerStatus { tracker_id: 0, status: STATUS_OK, confidence: CONFIDENCE_HIGH }
}

/// The synthetic position update: the given bit pattern as the first
/// coordinate, everything else constant (origin, identity rotation, full
/// data source).
pub open spec fn spec_position_msg(x_bits: u32) -> MsgView {
    MsgView::Position {
        tracker_id: 0,
        x: x_bits,
        y: 0,
        z: 0,
        qx: 0,
        qy: 0,
        qz: 0,
        qw: QUAT_W_ONE_BITS,
        data_source: DATA_SOURCE_FULL,
    }
}

/// Builds the fixed `TrackerAdded` handshake message.
pub fn tracker_added_message() -> (m: Message)
    ensures
        m@ == spec_tracker_added_msg(),
        msg_wf(m@),
{
    let serial: Vec<u8> = vec![
        0x53u8, 0x6cu8, 0x69u8, 0x6du8, 0x65u8, 0x56u8, 0x52u8, 0x20u8, 0x4cu8, 0x61u8, 0x74u8,
        0x65u8, 0x6eu8, 0x63u8, 0x79u8, 0x20u8, 0x54u8, 0x65u8, 0x73u8, 0x74u8,
    ];
    let name: Vec<u8> = vec![
        0x4cu8, 0x61u8, 0x74u8, 0x65u8, 0x6eu8, 0x63u8, 0x79u8, 0x20u8, 0x54u8, 0x65u8, 0x73u8,
        0x74u8, 0x65u8, 0x72u8,
    ];
    assert(serial@ =~= serial_bytes());
    assert(name@ =~= name_bytes());
    Message::TrackerAdded { tracker_id: 0, serial, name, role: ROLE_HMD }
}

/// Builds the fixed `TrackerStatus` handshake message.
pub fn tracker_status_message() -> (m: Message)
    ensures
        m@ == spec_tracker_status_msg(),
        msg_wf(m@),
{
    Message::TrackerStatus { tracker_id: 0, status: STATUS_OK, confidence: CONFIDENCE_HIGH }
}

/// Builds the synthetic position update for one emitted value.
pub fn position_update(x_bits: u32) -> (m: Message)
    ensures
        m@ == spec_position_msg(x_bits),
        msg_wf(m@),
{
    Message::Position {
        tracker_id: 0,
        x: x_bits,
        y: 0,
        z: 0,
        qx: 0,
        qy: 0,
        qz: 0,
        qw: QUAT_W_ONE_BITS,
        data_source: DATA_SOURCE_FULL,
    }
}

/// The handshake on the wire: the `TrackerAdded` frame followed by the
/// `TrackerStatus` frame, nothing else.
pub open spec fn spec_handshake_bytes() -> Seq<u8> {
    spec_frame(spec_tracker_added_msg()) + spec_frame(spec_tracker_status_msg())
}

/// Encodes the two handshake frames, in order, into one buffer.
pub fn handshake_frames() -> (r: Vec<u8>)
    ensures
        r@ == spec_handshake_bytes(),
{
    let added = tracker_added_message();
    let status = tracker_status_message();
    let mut buf = encode_frame(&added);
    let mut second = encode_frame(&status);
    buf.append(&mut second);
    buf
}

/// The connection lifecycle of the channel manager.
#[derive(Clone, Copy, PartialEq, Eq, Structural, Debug)]
pub enum ConnState {
    Disconnected,
    Established,
}

/// What the outside world reports to the session.
#[derive(Clone, Copy, PartialEq, Eq, Structural, Debug)]
pub enum SessionEvent {
    /// Opening the channel by its well-known name failed.
    OpenFailed,
    /// The channel is open.
    Opened,
    /// A supervised task returned, which only happens on an I/O error.
    TaskFailed,
    /// The periodic send tick, carrying the value to emit.
    Tick { x_bits: u32 },
}

/// What the session tells the outside world to do next.
#[derive(Clone, Copy, PartialEq, Eq, Structural, Debug)]
pub enum SessionAction {
    /// Wait the fixed retry delay, then attempt to open again.
    RetryAfterDelay,
    /// Write the handshake frames and spawn the supervised task group.
    SendHandshake,
    /// Frame and write one position update carrying this value.
    SendPosition { x_bits: u32 },
    /// Cancel the surviving tasks, report the error, wait the grace delay.
    TeardownAndDelay,
    /// The event does not apply in this state.
    NoAction,
}

/// The reference transition function: infinite retry with a fixed delay,
/// handshake on every successful open, teardown on the first task failure.
pub open spec fn spec_step(s: ConnState, e: SessionEvent) -> (ConnState, SessionAction) {
    match (s, e) {
        (ConnState::Disconnected, SessionEvent::OpenFailed) => (
            ConnState::Disconnected,
            SessionAction::RetryAfterDelay,
        ),
        (ConnState::Disconnected, SessionEvent::Opened) => (
            ConnState::Established,
            SessionAction::SendHandshake,
        ),
        (ConnState::Disconnected, _) => (ConnState::Disconnected, SessionAction::NoAction),
        (ConnState::Established, SessionEvent::TaskFailed) => (
            ConnState::Disconnected,
            SessionAction::TeardownAndDelay,
        ),
        (ConnState::Established, SessionEvent::Tick { x_bits }) => (
            ConnState::Established,
            SessionAction::SendPosition { x_bits },
        ),
        (ConnState::Established, _) => (ConnState::Established, SessionAction::NoAction),
    }
}

/// One transition, exactly the reference.
pub fn step(s: ConnState, e: SessionEvent) -> (r: (ConnState, SessionAction))
    ensures
        r == spec_step(s, e),
{
    match (s, e) {
        (ConnState::Disconnected, SessionEvent::OpenFailed) => (
            ConnState::Disconnected,
            SessionAction::RetryAfterDelay,
        ),
        (ConnState::Disconnected, SessionEvent::Opened) => (
            ConnState::Established,
            SessionAction::SendHandshake,
        ),
        (ConnState::Disconnected, _) => (ConnState::Disconnected, SessionAction::NoAction),
        (ConnState::Established, SessionEvent::TaskFailed) => (
            ConnState::Disconnected,
            SessionAction::TeardownAndDelay,
        ),
        (ConnState::Established, SessionEvent::Tick { x_bits }) => (
            ConnState::Established,
            SessionAction::SendPosition { x_bits },
        ),
        (ConnState::Established, _) => (ConnState::Established, SessionAction::NoAction),
    }
}

/// The state after a whole event sequence.
pub open spec fn run_state(s0: ConnState, events: Seq<SessionEvent>) -> ConnState
    decreases events.len(),
{
    if events.len() == 0 {
        s0
    } else {
        spec_step(run_state(s0, events.drop_last()), events.last()).0
    }
}

/// The action the session takes at step `i` of an event sequence.
pub open spec fn action_at(s0: ConnState, events: Seq<SessionEvent>, i: int) -> SessionAction {
    spec_step(run_state(s0, events.take(i)), events[i]).1
}

/// An established session starting from `Disconnected` sent a handshake at
/// some step, and has stayed established ever since that step.
proof fn lemma_established_has_handshake(s0: ConnState, events: Seq<SessionEvent>)
    requires
        s0 == ConnState::Disconnected,
        run_state(s0, events) == ConnState::Established,
    ensures
        exists|j: int|
            0 <= j < events.len() && action_at(s0, events, j) == SessionAction::SendHandshake
                && (forall|k: int|
                j < k <= events.len() ==> run_state(s0, events.take(k)) == ConnState::Established),
    decreases events.len(),
{
    let l = events.len() as int;
    let pre = events.drop_last();
    let sp = run_state(s0, pre);
    assert(events.take(l - 1) =~= pre);
    assert(events.take(l) =~= events);
    if sp == ConnState::Disconnected {
        assert(events.last() == SessionEvent::Opened);
        let j = l - 1;
        assert(action_at(s0, events, j) == SessionAction::SendHandshake);
        assert(forall|k: int|
            j < k <= l ==> run_state(s0, events.take(k)) == ConnState::Established);
    } else {
        lemma_established_has_handshake(s0, pre);
        let j = choose|j: int|
            0 <= j < pre.len() && action_at(s0, pre, j) == SessionAction::SendHandshake && (
            forall|k: int|
                j < k <= pre.len() ==> run_state(s0, pre.take(k)) == ConnState::Established);
        assert(pre.take(j) =~= events.take(j));
        assert(pre[j] == events[j]);
        assert(action_at(s0, events, j) == SessionAction::SendHandshake);
        assert forall|k: int|
            j < k <= l implies run_state(s0, events.take(k)) == ConnState::Established by {
            if k < l {
                assert(events.take(k) =~= pre.take(k));
            }
        }
    }
}

/// The reconnect invariant: whenever the session emits a position frame,
/// a handshake was emitted at an earlier step of the same connection — after
/// any failure and teardown, the handshake is re-sent in full before any
/// position frame, on every reconnect.
pub proof fn lemma_handshake_before_position(s0: ConnState, events: Seq<SessionEvent>, i: int)
    requires
        s0 == ConnState::Disconnected,
        0 <= i < events.len(),
        action_at(s0, events, i) matches SessionAction::SendPosition { .. },
    ensures
        exists|j: int|
            0 <= j < i && action_at(s0, events, j) == SessionAction::SendHandshake && (forall|
                k: int,
            |
                j < k <= i ==> action_at(s0, events, k) != SessionAction::TeardownAndDelay),
{
    let prefix = events.take(i);
    assert(run_state(s0, prefix) == ConnState::Established);
    lemma_established_has_handshake(s0, prefix);
    let j = choose|j: int|
        0 <= j < prefix.len() && action_at(s0, prefix, j) == SessionAction::SendHandshake && (
        forall|k: int|
            j < k <= prefix.len() ==> run_state(s0, prefix.take(k)) == ConnState::Established);
    assert(prefix.take(j) =~= events.take(j));
    assert(action_at(s0, events, j) == SessionAction::SendHandshake);
    assert forall|k: int|
        j < k <= i implies action_at(s0, events, k) != SessionAction::TeardownAndDelay by {
        if k < i {
            assert(prefix.take(k) =~= events.take(k));
            assert(prefix.take(k + 1) =~= events.take(k + 1));
            assert(run_state(s0, prefix.take(k)) == ConnState::Established);
            assert(run_state(s0, prefix.take(k + 1)) == ConnState::Established);
            if action_at(s0, events, k) == SessionAction::TeardownAndDelay {
                assert(events.take(k + 1).drop_last() =~= events.take(k));
                assert(events.take(k + 1).last() == events[k]);
                assert(spec_step(run_state(s0, events.take(k)), events[k]).1
                    == SessionAction::TeardownAndDelay);
                assert(events[k] == SessionEvent::TaskFailed);
                assert(run_state(s0, events.take(k + 1)) == ConnState::Disconnected);
            }
        } else {
            assert(action_at(s0, events, i) matches SessionAction::SendPosition { .. });
        }
    }
}

} // verus!
