use latency_bridge::correlate::PendingTest;
use latency_bridge::fanout::FanOut;

#[test]
fn publish_reaches_both_consumers_or_neither() {
    let t = PendingTest { sent_at: 42, value_bits: 7 };
    // Both consumers connected: both slots observe the pair.
    let mut f = FanOut::new();
    assert!(f.publish(t, true, true));
    assert_eq!(f.ipc_slot, Some(t));
    assert_eq!(f.broadcast_slot, Some(t));
    // Either consumer gone: the publish fails and neither slot changes.
    for (ipc, broadcast) in [(false, true), (true, false), (false, false)] {
        let mut f = FanOut::new();
        assert!(!f.publish(t, ipc, broadcast));
        assert_eq!(f.ipc_slot, None);
        assert_eq!(f.broadcast_slot, None);
    }
}

#[test]
fn take_drains_only_the_caller_slot() {
    let t = PendingTest { sent_at: 1, value_bits: 2 };
    let mut f = FanOut::new();
    assert!(f.publish(t, true, true));
    assert_eq!(f.take_ipc(), Some(t));
    assert_eq!(f.ipc_slot, None);
    assert_eq!(f.broadcast_slot, Some(t));
    assert_eq!(f.take_broadcast(), Some(t));
    assert_eq!(f.broadcast_slot, None);
    assert_eq!(f.take_ipc(), None);
}

#[test]
fn publish_overwrites_an_undrained_slot() {
    let first = PendingTest { sent_at: 1, value_bits: 1 };
    let second = PendingTest { sent_at: 2, value_bits: 2 };
    let mut f = FanOut::new();
    assert!(f.publish(first, true, true));
    assert!(f.publish(second, true, true));
    assert_eq!(f.take_ipc(), Some(second));
    assert_eq!(f.take_broadcast(), Some(second));
}
