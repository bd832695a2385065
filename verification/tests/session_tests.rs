use latency_bridge::codec::{decode_payload, frame_payload_len};
use latency_bridge::msg::Message;
use latency_bridge::session::{
    handshake_frames, position_update, step, tracker_added_message, ConnState, SessionAction,
    SessionEvent,
};

#[test]
fn retries_while_channel_is_unavailable_then_opens() {
    // Channel unavailable at startup: every failed open is answered with a
    // fixed-delay retry, never a crash or a give-up.
    let mut state = ConnState::Disconnected;
    for _ in 0..3 {
        let (s, a) = step(state, SessionEvent::OpenFailed);
        assert_eq!(s, ConnState::Disconnected);
        assert_eq!(a, SessionAction::RetryAfterDelay);
        state = s;
    }
    // Once available: the handshake goes first, then position frames with
    // strictly increasing values.
    let (s, a) = step(state, SessionEvent::Opened);
    assert_eq!(s, ConnState::Established);
    assert_eq!(a, SessionAction::SendHandshake);
    state = s;
    for i in 1u32..4 {
        let x_bits = (i as f32).to_bits();
        let (s, a) = step(state, SessionEvent::Tick { x_bits });
        assert_eq!(s, ConnState::Established);
        assert_eq!(a, SessionAction::SendPosition { x_bits });
        state = s;
    }
}

#[test]
fn task_failure_tears_down_and_reconnect_resends_handshake() {
    // One supervised task fails: siblings are cancelled and a delay elapses
    // (TeardownAndDelay), and the next successful open performs a full new
    // handshake before anything else.
    let (s, a) = step(ConnState::Established, SessionEvent::TaskFailed);
    assert_eq!(s, ConnState::Disconnected);
    assert_eq!(a, SessionAction::TeardownAndDelay);
    let (s, a) = step(s, SessionEvent::Opened);
    assert_eq!(s, ConnState::Established);
    assert_eq!(a, SessionAction::SendHandshake);
}

#[test]
fn handshake_is_tracker_added_then_tracker_status() {
    let bytes = handshake_frames();
    // First frame: TrackerAdded for the fixed synthetic tracker.
    let len1 = u32::from_le_bytes([bytes[0], bytes[1], bytes[2], bytes[3]]);
    let payload1_len = frame_payload_len(len1).unwrap();
    let payload1 = &bytes[4..4 + payload1_len];
    match decode_payload(payload1).unwrap() {
        Message::TrackerAdded { tracker_id, serial, name, role } => {
            assert_eq!(tracker_id, 0);
            assert_eq!(serial, b"SlimeVR Latency Test".to_vec());
            assert_eq!(name, b"Latency Tester".to_vec());
            assert_eq!(role, 19);
        },
        other => panic!("first handshake frame is not TrackerAdded: {:?}", other),
    }
    // Second frame: TrackerStatus, OK with high confidence.
    let rest = &bytes[4 + payload1_len..];
    let len2 = u32::from_le_bytes([rest[0], rest[1], rest[2], rest[3]]);
    let payload2_len = frame_payload_len(len2).unwrap();
    let payload2 = &rest[4..4 + payload2_len];
    assert_eq!(rest.len(), 4 + payload2_len);
    match decode_payload(payload2).unwrap() {
        Message::TrackerStatus { tracker_id, status, confidence } => {
            assert_eq!(tracker_id, 0);
            assert_eq!(status, 1);
            assert_eq!(confidence, 2);
        },
        other => panic!("second handshake frame is not TrackerStatus: {:?}", other),
    }
}

#[test]
fn position_update_holds_the_given_value_and_constants() {
    let m = position_update(4.0f32.to_bits());
    match m {
        Message::Position { tracker_id, x, y, z, qx, qy, qz, qw, data_source } => {
            assert_eq!(tracker_id, 0);
            assert_eq!(x, 4.0f32.to_bits());
            assert_eq!((y, z), (0, 0));
            assert_eq!((qx, qy, qz), (0, 0, 0));
            assert_eq!(qw, 1.0f32.to_bits());
            assert_eq!(data_source, 1);
        },
        other => panic!("not a position update: {:?}", other),
    }
}

#[test]
fn tracker_added_is_well_formed_for_framing() {
    // The fixed handshake message itself round-trips through the codec.
    let m = tracker_added_message();
    let enc = latency_bridge::codec::encode_payload(&m);
    assert_eq!(decode_payload(&enc).unwrap(), tracker_added_message());
}

#[test]
fn events_that_do_not_apply_change_nothing() {
    let (s, a) = step(ConnState::Disconnected, SessionEvent::Tick { x_bits: 1 });
    assert_eq!(s, ConnState::Disconnected);
    assert_eq!(a, SessionAction::NoAction);
    let (s, a) = step(ConnState::Established, SessionEvent::Opened);
    assert_eq!(s, ConnState::Established);
    assert_eq!(a, SessionAction::NoAction);
}
