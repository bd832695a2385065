//! Length-prefixed framing codec for the tracking-message schema.
//!
//! A payload is `tag || fields`, with every integer little-endian and every
//! byte field preceded by its 32-bit length. A frame is
//! `u32_le(payload_len + 4) || payload`: the length field counts itself.
//! `spec_encode` and `spec_decode` are the reference; the executable codec is
//! proved equal to them, and the round-trip and truncation laws are proved of
//! the reference itself.

use vstd::bytes::lemma_auto_spec_u32_to_from_le_bytes;
use vstd::bytes::spec_u32_from_le_bytes;
use vstd::bytes::spec_u32_to_le_bytes;
use vstd::bytes::u32_from_le_bytes;
use vstd::bytes::u32_to_le_bytes;
use vstd::prelude::*;
use vstd::slice::slice_subrange;
use vstd::slice::slice_to_vec;

use crate::msg::msg_wf;
use crate::msg::Message;
use crate::msg::MsgView;
use crate::msg::NAME_LEN_MAX;

verus! {

/// Tag byte of a `TrackerAdded` payload.
pub const TAG_TRACKER_ADDED: u8 = 1;

/// Tag byte of a `TrackerStatus` payload.
pub const TAG_TRACKER_STATUS: u8 = 2;

/// Tag byte of a `Position` payload.
pub const TAG_POSITION: u8 = 3;

/// Why a payload was rejected. A short buffer is always `Truncated`,
/// distinguishable from every other failure, so a reader that was handed
/// fewer bytes than a frame declared can see exactly that.
#[derive(Clone, Copy, PartialEq, Eq, Structural, Debug)]
pub enum DecodeError {
    /// The buffer ends before the payload's declared content does.
    Truncated,
    /// The buffer goes on after the payload's declared content ends.
    TrailingData,
    /// The tag byte names no variant of the schema.
    UnknownTag,
    /// A frame's length field is smaller than the length field itself.
    BadLengthPrefix,
}

/// The reference encoding of a payload.
pub open spec fn spec_encode(m: MsgView) -> Seq<u8> {
    match m {
        MsgView::TrackerAdded { tracker_id, serial, name, role } => {
            seq![TAG_TRACKER_ADDED] + spec_u32_to_le_bytes(tracker_id) + spec_u32_to_le_bytes(
                serial.len() as u32,
            ) + serial + spec_u32_to_le_bytes(name.len() as u32) + name + spec_u32_to_le_bytes(role)
        },
        MsgView::TrackerStatus { tracker_id, status, confidence } => {
            seq![TAG_TRACKER_STATUS] + spec_u32_to_le_bytes(tracker_id) + spec_u32_to_le_bytes(
                status,
            ) + spec_u32_to_le_bytes(confidence)
        },
        MsgView::Position { tracker_id, x, y, z, qx, qy, qz, qw, data_source } => {
            seq![TAG_POSITION] + spec_u32_to_le_bytes(tracker_id) + spec_u32_to_le_bytes(x)
                + spec_u32_to_le_bytes(y) + spec_u32_to_le_bytes(z) + spec_u32_to_le_bytes(qx)
                + spec_u32_to_le_bytes(qy) + spec_u32_to_le_bytes(qz) + spec_u32_to_le_bytes(qw)
                + spec_u32_to_le_bytes(data_source)
        },
    }
}

/// The reference decoding of a `TrackerAdded` payload.
pub open spec fn spec_decode_tracker_added(b: Seq<u8>) -> Result<MsgView, DecodeError> {
    if b.len() < 9 {
        Err(DecodeError::Truncated)
    } else {
        let slen = spec_u32_from_le_bytes(b.subrange(5, 9)) as int;
        if b.len() < 13 + slen {
            Err(DecodeError::Truncated)
        } else {
            let nlen = spec_u32_from_le_bytes(b.subrange(9 + slen, 13 + slen)) as int;
            if b.len() < 17 + slen + nlen {
                Err(DecodeError::Truncated)
            } else if b.len() > 17 + slen + nlen {
                Err(DecodeError::TrailingData)
            } else {
                Ok(
                    MsgView::TrackerAdded {
                        tracker_id: spec_u32_from_le_bytes(b.subrange(1, 5)),
                        serial: b.subrange(9, 9 + slen),
                        name: b.subrange(13 + slen, 13 + slen + nlen),
                        role: spec_u32_from_le_bytes(
                            b.subrange(13 + slen + nlen, 17 + slen + nlen),
                        ),
                    },
                )
            }
        }
    }
}

/// The reference decoding of a `TrackerStatus` payload.
pub open spec fn spec_decode_tracker_status(b: Seq<u8>) -> Result<MsgView, DecodeError> {
    if b.len() < 13 {
        Err(DecodeError::Truncated)
    } else if b.len() > 13 {
        Err(DecodeError::TrailingData)
    } else {
        Ok(
            MsgView::TrackerStatus {
                tracker_id: spec_u32_from_le_bytes(b.subrange(1, 5)),
                status: spec_u32_from_le_bytes(b.subrange(5, 9)),
                confidence: spec_u32_from_le_bytes(b.subrange(9, 13)),
            },
        )
    }
}

/// The reference decoding of a `Position` payload.
pub open spec fn spec_decode_position(b: Seq<u8>) -> Result<MsgView, DecodeError> {
    if b.len() < 37 {
        Err(DecodeError::Truncated)
    } else if b.len() > 37 {
        Err(DecodeError::TrailingData)
    } else {
        Ok(
            MsgView::Position {
                tracker_id: spec_u32_from_le_bytes(b.subrange(1, 5)),
                x: spec_u32_from_le_bytes(b.subrange(5, 9)),
                y: spec_u32_from_le_bytes(b.subrange(9, 13)),
                z: spec_u32_from_le_bytes(b.subrange(13, 17)),
                qx: spec_u32_from_le_bytes(b.subrange(17, 21)),
                qy: spec_u32_from_le_bytes(b.subrange(21, 25)),
                qz: spec_u32_from_le_bytes(b.subrange(25, 29)),
                qw: spec_u32_from_le_bytes(b.subrange(29, 33)),
                data_source: spec_u32_from_le_bytes(b.subrange(33, 37)),
            },
        )
    }
}

/// The reference decoding of a payload: the exact inverse of `spec_encode`
/// on well-formed messages, and an error on everything shorter, longer or
/// unknown.
pub open spec fn spec_decode(b: Seq<u8>) -> Result<MsgView, DecodeError> {
    if b.len() < 1 {
        Err(DecodeError::Truncated)
    } else if b[0] == TAG_TRACKER_ADDED {
        spec_decode_tracker_added(b)
    } else if b[0] == TAG_TRACKER_STATUS {
        spec_decode_tracker_status(b)
    } else if b[0] == TAG_POSITION {
        spec_decode_position(b)
    } else {
        Err(DecodeError::UnknownTag)
    }
}

/// Appends a byte slice to a buffer.
fn push_bytes(buf: &mut Vec<u8>, data: &[u8])
    ensures
        final(buf)@ == old(buf)@ + data@,
{
    let mut i: usize = 0;
    while i < data.len()
        invariant
            i <= data@.len(),
            buf@ == old(buf)@ + data@.take(i as int),
        decreases data@.len() - i,
    {
        buf.push(data[i]);
        assert(data@.take(i + 1 as int) =~= data@.take(i as int).push(data@[i as int]));
        i += 1;
    }
    assert(data@.take(data@.len() as int) =~= data@);
}

/// Appends the little-endian bytes of a 32-bit value to a buffer.
fn push_u32_le(buf: &mut Vec<u8>, v: u32)
    ensures
        final(buf)@ == old(buf)@ + spec_u32_to_le_bytes(v),
{
    let bytes = u32_to_le_bytes(v);
    push_bytes(buf, bytes.as_slice());
}

/// Encodes a payload; the result is exactly the reference encoding.
pub fn encode_payload(m: &Message) -> (r: Vec<u8>)
    requires
        msg_wf(m@),
    ensures
        r@ == spec_encode(m@),
{
    let mut buf: Vec<u8> = Vec::new();
    match m {
        Message::TrackerAdded { tracker_id, serial, name, role } => {
            buf.push(TAG_TRACKER_ADDED);
            push_u32_le(&mut buf, *tracker_id);
            push_u32_le(&mut buf, serial.len() as u32);
            push_bytes(&mut buf, serial.as_slice());
            push_u32_le(&mut buf, name.len() as u32);
            push_bytes(&mut buf, name.as_slice());
            push_u32_le(&mut buf, *role);
            assert(buf@ =~= spec_encode(m@));
        },
        Message::TrackerStatus { tracker_id, status, confidence } => {
            buf.push(TAG_TRACKER_STATUS);
            push_u32_le(&mut buf, *tracker_id);
            push_u32_le(&mut buf, *status);
            push_u32_le(&mut buf, *confidence);
            assert(buf@ =~= spec_encode(m@));
        },
        Message::Position { tracker_id, x, y, z, qx, qy, qz, qw, data_source } => {
            buf.push(TAG_POSITION);
            push_u32_le(&mut buf, *tracker_id);
            push_u32_le(&mut buf, *x);
            push_u32_le(&mut buf, *y);
            push_u32_le(&mut buf, *z);
            push_u32_le(&mut buf, *qx);
            push_u32_le(&mut buf, *qy);
            push_u32_le(&mut buf, *qz);
            push_u32_le(&mut buf, *qw);
            push_u32_le(&mut buf, *data_source);
            assert(buf@ =~= spec_encode(m@));
        },
    }
    buf
}

/// Decodes a `TrackerAdded` payload; equal to the reference decoding.
fn decode_tracker_added(b: &[u8]) -> (r: Result<Message, DecodeError>)
    requires
        b@.len() >= 1,
        b@[0] == TAG_TRACKER_ADDED,
    ensures
        match r {
            Ok(m) => spec_decode_tracker_added(b@) == Ok::<MsgView, DecodeError>(m@),
            Err(e) => spec_decode_tracker_added(b@) == Err::<MsgView, DecodeError>(e),
        },
{
    if b.len() < 9 {
        return Err(DecodeError::Truncated);
    }
    let tracker_id = u32_from_le_bytes(slice_subrange(b, 1, 5));
    let slen = u32_from_le_bytes(slice_subrange(b, 5, 9)) as usize;
    if b.len() - 9 < slen {
        return Err(DecodeError::Truncated);
    }
    if b.len() - 9 - slen < 4 {
        return Err(DecodeError::Truncated);
    }
    let nlen = u32_from_le_bytes(slice_subrange(b, 9 + slen, 13 + slen)) as usize;
    let rest = b.len() - 13 - slen;
    if nlen > rest || rest - nlen < 4 {
        return Err(DecodeError::Truncated);
    }
    if rest - nlen > 4 {
        return Err(DecodeError::TrailingData);
    }
    let serial = slice_to_vec(slice_subrange(b, 9, 9 + slen));
    let name = slice_to_vec(slice_subrange(b, 13 + slen, 13 + slen + nlen));
    let role = u32_from_le_bytes(slice_subrange(b, 13 + slen + nlen, 17 + slen + nlen));
    Ok(Message::TrackerAdded { tracker_id, serial, name, role })
}

/// Decodes a `TrackerStatus` payload; equal to the reference decoding.
fn decode_tracker_status(b: &[u8]) -> (r: Result<Message, DecodeError>)
    requires
        b@.len() >= 1,
        b@[0] == TAG_TRACKER_STATUS,
    ensures
        match r {
            Ok(m) => spec_decode_tracker_status(b@) == Ok::<MsgView, DecodeError>(m@),
            Err(e) => spec_decode_tracker_status(b@) == Err::<MsgView, DecodeError>(e),
        },
{
    if b.len() < 13 {
        return Err(DecodeError::Truncated);
    }
    if b.len() > 13 {
        return Err(DecodeError::TrailingData);
    }
    let tracker_id = u32_from_le_bytes(slice_subrange(b, 1, 5));
    let status = u32_from_le_bytes(slice_subrange(b, 5, 9));
    let confidence = u32_from_le_bytes(slice_subrange(b, 9, 13));
    Ok(Message::TrackerStatus { tracker_id, status, confidence })
}

/// Decodes a `Position` payload; equal to the reference decoding.
fn decode_position(b: &[u8]) -> (r: Result<Message, DecodeError>)
    requires
        b@.len() >= 1,
        b@[0] == TAG_POSITION,
    ensures
        match r {
            Ok(m) => spec_decode_position(b@) == Ok::<MsgView, DecodeError>(m@),
            Err(e) => spec_decode_position(b@) == Err::<MsgView, DecodeError>(e),
        },
{
    if b.len() < 37 {
        return Err(DecodeError::Truncated);
    }
    if b.len() > 37 {
        return Err(DecodeError::TrailingData);
    }
    let tracker_id = u32_from_le_bytes(slice_subrange(b, 1, 5));
    let x = u32_from_le_bytes(slice_subrange(b, 5, 9));
    let y = u32_from_le_bytes(slice_subrange(b, 9, 13));
    let z = u32_from_le_bytes(slice_subrange(b, 13, 17));
    let qx = u32_from_le_bytes(slice_subrange(b, 17, 21));
    let qy = u32_from_le_bytes(slice_subrange(b, 21, 25));
    let qz = u32_from_le_bytes(slice_subrange(b, 25, 29));
    let qw = u32_from_le_bytes(slice_subrange(b, 29, 33));
    let data_source = u32_from_le_bytes(slice_subrange(b, 33, 37));
    Ok(Message::Position { tracker_id, x, y, z, qx, qy, qz, qw, data_source })
}

/// Decodes a complete payload (the caller has already stripped the length
/// prefix): returns exactly what the reference decoding says, the message on
/// a well-formed buffer and the reference's error on any other.
pub fn decode_payload(b: &[u8]) -> (r: Result<Message, DecodeError>)
    ensures
        match r {
            Ok(m) => spec_decode(b@) == Ok::<MsgView, DecodeError>(m@),
            Err(e) => spec_decode(b@) == Err::<MsgView, DecodeError>(e),
        },
{
    if b.len() < 1 {
        return Err(DecodeError::Truncated);
    }
    let tag = b[0];
    if tag == TAG_TRACKER_ADDED {
        decode_tracker_added(b)
    } else if tag == TAG_TRACKER_STATUS {
        decode_tracker_status(b)
    } else if tag == TAG_POSITION {
        decode_position(b)
    } else {
        Err(DecodeError::UnknownTag)
    }
}

/// The reference encoding of a whole frame: the length field counts the
/// payload and itself.
pub open spec fn spec_frame(m: MsgView) -> Seq<u8> {
    spec_u32_to_le_bytes((spec_encode(m).len() + 4) as u32) + spec_encode(m)
}

/// A well-formed message encodes to between 13 bytes and the fixed-field
/// sizes plus two maximal byte fields.
pub proof fn lemma_encode_len(m: MsgView)
    requires
        msg_wf(m),
    ensures
        13 <= spec_encode(m).len() <= 17 + 2 * (NAME_LEN_MAX as int),
{
    lemma_auto_spec_u32_to_from_le_bytes();
}

/// Round trip: decoding an encoded well-formed message gives that message
/// back, with no input on which this fails.
pub proof fn lemma_encode_decode_roundtrip(m: MsgView)
    requires
        msg_wf(m),
    ensures
        spec_decode(spec_encode(m)) == Ok::<MsgView, DecodeError>(m),
{
    lemma_auto_spec_u32_to_from_le_bytes();
    let e = spec_encode(m);
    match m {
        MsgView::TrackerAdded { tracker_id, serial, name, role } => {
            let s = serial.len() as int;
            let n = name.len() as int;
            assert(e.len() == 17 + s + n);
            assert(e[0] == TAG_TRACKER_ADDED);
            assert(e.subrange(1, 5) =~= spec_u32_to_le_bytes(tracker_id));
            assert(e.subrange(5, 9) =~= spec_u32_to_le_bytes(serial.len() as u32));
            assert(spec_u32_from_le_bytes(e.subrange(5, 9)) as int == s);
            assert(e.subrange(9, 9 + s) =~= serial);
            assert(e.subrange(9 + s, 13 + s) =~= spec_u32_to_le_bytes(name.len() as u32));
            assert(spec_u32_from_le_bytes(e.subrange(9 + s, 13 + s)) as int == n);
            assert(e.subrange(13 + s, 13 + s + n) =~= name);
            assert(e.subrange(13 + s + n, 17 + s + n) =~= spec_u32_to_le_bytes(role));
        },
        MsgView::TrackerStatus { tracker_id, status, confidence } => {
            assert(e.len() == 13);
            assert(e[0] == TAG_TRACKER_STATUS);
            assert(e.subrange(1, 5) =~= spec_u32_to_le_bytes(tracker_id));
            assert(e.subrange(5, 9) =~= spec_u32_to_le_bytes(status));
            assert(e.subrange(9, 13) =~= spec_u32_to_le_bytes(confidence));
        },
        MsgView::Position { tracker_id, x, y, z, qx, qy, qz, qw, data_source } => {
            assert(e.len() == 37);
            assert(e[0] == TAG_POSITION);
            assert(e.subrange(1, 5) =~= spec_u32_to_le_bytes(tracker_id));
            assert(e.subrange(5, 9) =~= spec_u32_to_le_bytes(x));
            assert(e.subrange(9, 13) =~= spec_u32_to_le_bytes(y));
            assert(e.subrange(13, 17) =~= spec_u32_to_le_bytes(z));
            assert(e.subrange(17, 21) =~= spec_u32_to_le_bytes(qx));
            assert(e.subrange(21, 25) =~= spec_u32_to_le_bytes(qy));
            assert(e.subrange(25, 29) =~= spec_u32_to_le_bytes(qz));
            assert(e.subrange(29, 33) =~= spec_u32_to_le_bytes(qw));
            assert(e.subrange(33, 37) =~= spec_u32_to_le_bytes(data_source));
        },
    }
}

/// A truncated payload never decodes: every strict prefix of an encoding is
/// rejected, and with the error that names truncation, never partial data.
pub proof fn lemma_truncated_payload_rejected(m: MsgView, k: int)
    requires
        msg_wf(m),
        0 <= k < spec_encode(m).len(),
    ensures
        spec_decode(spec_encode(m).take(k)) == Err::<MsgView, DecodeError>(DecodeError::Truncated),
{
    lemma_auto_spec_u32_to_from_le_bytes();
    let e = spec_encode(m);
    let t = e.take(k);
    if k == 0 {
        return ;
    }
    assert(t[0] == e[0]);
    match m {
        MsgView::TrackerAdded { tracker_id, serial, name, role } => {
            let s = serial.len() as int;
            let n = name.len() as int;
            assert(e.len() == 17 + s + n);
            if k >= 9 {
                assert(t.subrange(5, 9) =~= e.subrange(5, 9));
                assert(e.subrange(5, 9) =~= spec_u32_to_le_bytes(serial.len() as u32));
                assert(spec_u32_from_le_bytes(t.subrange(5, 9)) as int == s);
                if k >= 13 + s {
                    assert(t.subrange(9 + s, 13 + s) =~= e.subrange(9 + s, 13 + s));
                    assert(e.subrange(9 + s, 13 + s) =~= spec_u32_to_le_bytes(name.len() as u32));
                    assert(spec_u32_from_le_bytes(t.subrange(9 + s, 13 + s)) as int == n);
                    assert(t.len() < 17 + s + n);
                }
            }
        },
        MsgView::TrackerStatus { .. } => {
            assert(e.len() == 13);
        },
        MsgView::Position { .. } => {
            assert(e.len() == 37);
        },
    }
}

/// Only encodings decode: a buffer that decodes at all is exactly the
/// encoding of the message it decodes to — a decoder never accepts bytes
/// that the encoder could not have produced.
pub proof fn lemma_decode_sound(b: Seq<u8>)
    requires
        spec_decode(b) is Ok,
    ensures
        spec_encode(spec_decode(b)->Ok_0) == b,
{
    lemma_auto_spec_u32_to_from_le_bytes();
    let m = spec_decode(b)->Ok_0;
    let e = spec_encode(m);
    if b[0] == TAG_TRACKER_ADDED {
        let slen = spec_u32_from_le_bytes(b.subrange(5, 9)) as int;
        let nlen = spec_u32_from_le_bytes(b.subrange(9 + slen, 13 + slen)) as int;
        assert(b.len() == 17 + slen + nlen);
        let serial = b.subrange(9, 9 + slen);
        let name = b.subrange(13 + slen, 13 + slen + nlen);
        assert(spec_u32_to_le_bytes(serial.len() as u32) == b.subrange(5, 9));
        assert(spec_u32_to_le_bytes(name.len() as u32) == b.subrange(9 + slen, 13 + slen));
        assert(e =~= b);
    } else if b[0] == TAG_TRACKER_STATUS {
        assert(b.len() == 13);
        assert(e =~= b);
    } else {
        assert(b[0] == TAG_POSITION);
        assert(b.len() == 37);
        assert(e =~= b);
    }
}

/// The frame law: for every well-formed message the frame's declared length
/// field equals the payload byte length plus the four bytes of the field
/// itself, and the rest of the frame is exactly the payload.
pub proof fn lemma_frame_length_field(m: MsgView)
    requires
        msg_wf(m),
    ensures
        spec_frame(m).len() == spec_encode(m).len() + 4,
        spec_u32_from_le_bytes(spec_frame(m).subrange(0, 4)) as int == spec_encode(m).len() + 4,
        spec_frame(m).subrange(4, spec_frame(m).len() as int) == spec_encode(m),
{
    lemma_auto_spec_u32_to_from_le_bytes();
    lemma_encode_len(m);
    let f = spec_frame(m);
    let e = spec_encode(m);
    assert(f.subrange(0, 4) =~= spec_u32_to_le_bytes((e.len() + 4) as u32));
    assert(f.subrange(4, f.len() as int) =~= e);
}

/// Encodes a whole frame: the little-endian length field, counting itself,
/// then the payload.
pub fn encode_frame(m: &Message) -> (r: Vec<u8>)
    requires
        msg_wf(m@),
    ensures
        r@ == spec_frame(m@),
        r@.len() == spec_encode(m@).len() + 4,
        r@.subrange(4, r@.len() as int) == spec_encode(m@),
        spec_u32_from_le_bytes(r@.subrange(0, 4)) as int == r@.len(),
{
    proof {
        lemma_encode_len(m@);
        lemma_frame_length_field(m@);
    }
    let payload = encode_payload(m);
    let mut buf: Vec<u8> = Vec::new();
    push_u32_le(&mut buf, (payload.len() + 4) as u32);
    push_bytes(&mut buf, payload.as_slice());
    assert(buf@ =~= spec_frame(m@));
    buf
}

/// Turns a frame's length field into the payload length that follows it:
/// the field counts its own four bytes, so anything smaller is rejected.
pub fn frame_payload_len(len_field: u32) -> (r: Result<usize, DecodeError>)
    ensures
        r == if len_field >= 4 {
            Ok::<usize, DecodeError>((len_field - 4) as usize)
        } else {
            Err::<usize, DecodeError>(DecodeError::BadLengthPrefix)
        },
{
    if len_field >= 4 {
        Ok((len_field - 4) as usize)
    } else {
        Err(DecodeError::BadLengthPrefix)
    }
}

} // verus!

