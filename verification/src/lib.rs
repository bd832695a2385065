//! A verified core for a tracking-latency probe: a length-prefixed framing
//! codec for a fixed tracking-message schema, the pending-test latency
//! correlation applied to both return paths (IPC echo and broadcast echo),
//! the reconnecting session state machine, and the single-slot fan-out
//! discipline that hands each emitted test value to both consumers.

pub mod codec;
pub mod correlate;
pub mod fanout;
pub mod msg;
pub mod osc;
pub mod session;
