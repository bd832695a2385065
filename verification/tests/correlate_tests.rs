use latency_bridge::correlate::{
    correlate_step, handle_ipc_message, should_fetch, PendingTest,
};
use latency_bridge::session::position_update;

#[test]
fn no_pending_and_no_value_reports_nothing() {
    let (p, rep) = correlate_step(None, None, 100);
    assert_eq!(p, None);
    assert_eq!(rep, None);
}

#[test]
fn no_pending_ignores_observed_values() {
    let (p, rep) = correlate_step(None, Some(3.0f32.to_bits()), 100);
    assert_eq!(p, None);
    assert_eq!(rep, None);
}

#[test]
fn non_matching_value_retains_pending() {
    let pending = Some(PendingTest { sent_at: 10, value_bits: 5.0f32.to_bits() });
    let (p, rep) = correlate_step(pending, Some(2.0f32.to_bits()), 100);
    assert_eq!(p, pending);
    assert_eq!(rep, None);
}

#[test]
fn exact_match_clears_pending_and_reports_elapsed() {
    let pending = Some(PendingTest { sent_at: 10, value_bits: 3.0f32.to_bits() });
    let (p, rep) = correlate_step(pending, Some(3.0f32.to_bits()), 35);
    assert_eq!(p, None);
    assert_eq!(rep, Some(25));
}

#[test]
fn ipc_echo_match_then_duplicate_produces_one_report() {
    let echoed = position_update(3.0f32.to_bits());
    let pending = Some(PendingTest { sent_at: 100, value_bits: 3.0f32.to_bits() });
    let (p, rep) = handle_ipc_message(pending, &echoed, 160);
    assert_eq!(rep, Some(60));
    assert_eq!(p, None);
    // The same echo again: pending is already cleared, so nothing is reported.
    let (p2, rep2) = handle_ipc_message(p, &echoed, 170);
    assert_eq!(p2, None);
    assert_eq!(rep2, None);
}

#[test]
fn non_position_messages_change_nothing() {
    let m = latency_bridge::session::tracker_status_message();
    let pending = Some(PendingTest { sent_at: 1, value_bits: 7 });
    let (p, rep) = handle_ipc_message(pending, &m, 50);
    assert_eq!(p, pending);
    assert_eq!(rep, None);
}

#[test]
fn fetch_only_when_slot_is_empty() {
    assert!(should_fetch(&None));
    assert!(!should_fetch(&Some(PendingTest { sent_at: 0, value_bits: 0 })));
}
