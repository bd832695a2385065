//! The fixed tracking-message schema.
//!
//! Scalar coordinates travel on the wire as the 32-bit patterns of their
//! single-precision values; the library stores and compares those patterns
//! directly, so the exact-equality matching of the correlation logic is
//! equality of `u32` values here.

use vstd::prelude::*;

verus! {

/// Role constant declaring the synthetic tracker as a head-mounted device.
pub const ROLE_HMD: u32 = 19;

/// Status value sent in the handshake: tracker OK.
pub const STATUS_OK: u32 = 1;

/// Confidence value sent in the handshake: high confidence.
pub const CONFIDENCE_HIGH: u32 = 2;

/// Data-source value carried by every synthetic position update.
pub const DATA_SOURCE_FULL: u32 = 1;

/// Bit pattern of the quaternion identity's scalar component (one).
pub const QUAT_W_ONE_BITS: u32 = 0x3F80_0000;

/// Longest serial or name accepted in a `TrackerAdded` message.
pub const NAME_LEN_MAX: usize = 65535;

/// A message of the tracking schema. Only `Position` carries latency-relevant
/// data; `TrackerAdded` and `TrackerStatus` are sent once per connection as
/// the handshake.
#[derive(Debug, PartialEq, Eq)]
pub enum Message {
    TrackerAdded { tracker_id: u32, serial: Vec<u8>, name: Vec<u8>, role: u32 },
    TrackerStatus { tracker_id: u32, status: u32, confidence: u32 },
    Position {
        tracker_id: u32,
        x: u32,
        y: u32,
        z: u32,
        qx: u32,
        qy: u32,
        qz: u32,
        qw: u32,
        data_source: u32,
    },
}

/// The mathematical model of a `Message`: byte fields become sequences.
pub ghost enum MsgView {
    TrackerAdded { tracker_id: u32, serial: Seq<u8>, name: Seq<u8>, role: u32 },
    TrackerStatus { tracker_id: u32, status: u32, confidence: u32 },
    Position {
        tracker_id: u32,
        x: u32,
        y: u32,
        z: u32,
        qx: u32,
        qy: u32,
        qz: u32,
        qw: u32,
        data_source: u32,
    },
}

impl View for Message {
    type V = MsgView;

    open spec fn view(&self) -> MsgView {
        match self {
            Message::TrackerAdded { tracker_id, serial, name, role } => MsgView::TrackerAdded {
                tracker_id: *tracker_id,
                serial: serial@,
                name: name@,
                role: *role,
            },
            Message::TrackerStatus { tracker_id, status, confidence } => MsgView::TrackerStatus {
                tracker_id: *tracker_id,
                status: *status,
                confidence: *confidence,
            },
            Message::Position { tracker_id, x, y, z, qx, qy, qz, qw, data_source } => (
                MsgView::Position {
                    tracker_id: *tracker_id,
                    x: *x,
                    y: *y,
                    z: *z,
                    qx: *qx,
                    qy: *qy,
                    qz: *qz,
                    qw: *qw,
                    data_source: *data_source,
                }
            ),
        }
    }
}

/// A well-formed message: the variable-length byte fields are short enough
/// that every length arising in the codec fits in a `u32`.
pub open spec fn msg_wf(m: MsgView) -> bool {
    match m {
        MsgView::TrackerAdded { serial, name, .. } => {
            serial.len() <= NAME_LEN_MAX && name.len() <= NAME_LEN_MAX
        },
        _ => true,
    }
}

/// The bit pattern of the position's first coordinate, when the message is a
/// position update; the correlation logic matches on exactly this field.
pub open spec fn spec_position_x(m: MsgView) -> Option<u32> {
    match m {
        MsgView::Position { x, .. } => Some(x),
        _ => None,
    }
}

/// Extracts the first-coordinate bit pattern of a position update, and
/// nothing from any other variant.
pub fn position_x(m: &Message) -> (r: Option<u32>)
    ensures
        r == spec_position_x(m@),
{
    match m {
        Message::Position { x, .. } => Some(*x),
        _ => None,
    }
}

} // verus!
