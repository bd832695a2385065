use latency_bridge::codec::{
    decode_payload, encode_frame, encode_payload, frame_payload_len, DecodeError,
};
use latency_bridge::msg::Message;

fn sample_added() -> Message {
    Message::TrackerAdded {
        tracker_id: 7,
        serial: b"abc".to_vec(),
        name: b"de".to_vec(),
        role: 19,
    }
}

fn sample_status() -> Message {
    Message::TrackerStatus { tracker_id: 1, status: 1, confidence: 2 }
}

fn sample_position() -> Message {
    Message::Position {
        tracker_id: 0,
        x: 3.0f32.to_bits(),
        y: 0,
        z: 0,
        qx: 0,
        qy: 0,
        qz: 0,
        qw: 1.0f32.to_bits(),
        data_source: 1,
    }
}

#[test]
fn roundtrip_tracker_added() {
    let m = sample_added();
    let enc = encode_payload(&m);
    assert_eq!(decode_payload(&enc), Ok(sample_added()));
}

#[test]
fn roundtrip_tracker_status() {
    let m = sample_status();
    let enc = encode_payload(&m);
    assert_eq!(decode_payload(&enc), Ok(sample_status()));
}

#[test]
fn roundtrip_position() {
    let m = sample_position();
    let enc = encode_payload(&m);
    assert_eq!(decode_payload(&enc), Ok(sample_position()));
}

#[test]
fn roundtrip_empty_byte_fields() {
    let m = Message::TrackerAdded {
        tracker_id: 0,
        serial: Vec::new(),
        name: Vec::new(),
        role: 0,
    };
    let enc = encode_payload(&m);
    let back = decode_payload(&enc).unwrap();
    assert_eq!(
        back,
        Message::TrackerAdded { tracker_id: 0, serial: Vec::new(), name: Vec::new(), role: 0 }
    );
}

#[test]
fn tracker_status_exact_bytes() {
    let enc = encode_payload(&sample_status());
    assert_eq!(enc, vec![2u8, 1, 0, 0, 0, 1, 0, 0, 0, 2, 0, 0, 0]);
}

#[test]
fn every_truncation_is_rejected_as_truncated() {
    for m in [sample_added(), sample_status(), sample_position()] {
        let enc = encode_payload(&m);
        for k in 0..enc.len() {
            assert_eq!(decode_payload(&enc[..k]), Err(DecodeError::Truncated));
        }
    }
}

#[test]
fn trailing_data_is_rejected() {
    for m in [sample_added(), sample_status(), sample_position()] {
        let mut enc = encode_payload(&m);
        enc.push(0);
        assert_eq!(decode_payload(&enc), Err(DecodeError::TrailingData));
    }
}

#[test]
fn unknown_tag_is_rejected() {
    assert_eq!(decode_payload(&[9u8, 0, 0, 0]), Err(DecodeError::UnknownTag));
}

#[test]
fn empty_buffer_is_truncated() {
    assert_eq!(decode_payload(&[]), Err(DecodeError::Truncated));
}

#[test]
fn frame_length_field_counts_itself() {
    for m in [sample_added(), sample_status(), sample_position()] {
        let payload = encode_payload(&m);
        let frame = encode_frame(&m);
        assert_eq!(frame.len(), payload.len() + 4);
        let declared = u32::from_le_bytes([frame[0], frame[1], frame[2], frame[3]]);
        assert_eq!(declared as usize, payload.len() + 4);
        assert_eq!(&frame[4..], &payload[..]);
    }
}

#[test]
fn frame_payload_len_subtracts_the_field() {
    assert_eq!(frame_payload_len(41), Ok(37));
    assert_eq!(frame_payload_len(4), Ok(0));
    assert_eq!(frame_payload_len(3), Err(DecodeError::BadLengthPrefix));
    assert_eq!(frame_payload_len(0), Err(DecodeError::BadLengthPrefix));
}
