use parapet::poll::{Schedule, NANOS_PER_MILLI};

fn ms(v: u128) -> u128 {
    v * NANOS_PER_MILLI
}

#[test]
fn poll_poller_respects_interval() {
    let mut s = Schedule::new();
    let i = s.register(500);
    let t0 = ms(1_000);
    assert_eq!(s.due_slots(t0), vec![i]);
    s.mark_polled(i, t0);
    assert!(s.due_slots(t0 + ms(100)).is_empty(), "too soon — should not fire");
    assert_eq!(s.due_slots(t0 + ms(600)), vec![i], "after interval — should fire");
    assert!(s.is_due(i, t0 + ms(500)));
}

#[test]
fn poller_new_is_empty() {
    let s = Schedule::new();
    assert_eq!(s.len(), 0);
    assert!(s.due_slots(0).is_empty());
}

#[test]
fn poller_polls_all_widgets_on_first_call() {
    let mut s = Schedule::new();
    s.register(1000);
    s.register(2000);
    assert_eq!(s.due_slots(ms(5)), vec![0, 1]);
}

#[test]
fn poller_skips_erroring_widget() {
    // A failed update is not recorded, so the widget stays due.
    let mut s = Schedule::new();
    let i = s.register(100);
    assert!(s.is_due(i, 0));
    assert!(s.is_due(i, ms(1)));
    assert_eq!(s.slot(i).last_polled, None);
}

#[test]
fn poller_independent_intervals_for_each_widget() {
    let mut s = Schedule::new();
    let fast = s.register(500);
    let slow = s.register(2000);
    let t0 = ms(0);
    s.mark_polled(fast, t0);
    s.mark_polled(slow, t0);
    assert_eq!(s.due_slots(t0 + ms(600)), vec![fast]);
    s.mark_polled(fast, t0 + ms(600));
    assert_eq!(s.due_slots(t0 + ms(2100)), vec![fast, slow]);
    // A clock that goes backwards never makes a widget due early.
    assert!(!s.is_due(slow, 0));
}

#[test]
fn poller_intervals_poller_respects_interval() {
    let mut s = Schedule::new();
    let i = s.register(500);
    let t0 = ms(42);
    assert!(s.is_due(i, t0));
    s.mark_polled(i, t0);
    assert!(s.due_slots(t0 + ms(100)).is_empty(), "should not poll within interval (100ms < 500ms)");
    assert_eq!(s.due_slots(t0 + ms(600)).len(), 1, "should poll after interval has elapsed (600ms > 500ms)");
}

#[test]
fn poller_polls_on_first_call() {
    let mut s = Schedule::new();
    s.register(1000);
    assert_eq!(s.due_slots(ms(7)).len(), 1);
}

#[test]
fn poller_skips_erroring_widget_without_panic() {
    let mut s = Schedule::new();
    let i = s.register(100);
    // The update failed, so nothing is recorded and the next tick retries.
    assert_eq!(s.due_slots(ms(0)), vec![i]);
    assert_eq!(s.due_slots(ms(1)), vec![i]);
}

#[test]
fn poll_records_successes_and_keeps_failures_due() {
    let mut s = Schedule::new();
    let a = s.register(1000);
    let b = s.register(1000);
    let c = s.register(1000);
    let t0 = ms(5);
    let due = s.due_slots(t0);
    assert_eq!(due, vec![a, b, c]);
    let done = s.record_outcomes(t0, &due, vec![Some("a-data"), None, Some("c-data")]);
    assert_eq!(done, vec![(a, "a-data"), (c, "c-data")]);
    assert_eq!(s.slot(a).last_polled, Some(t0));
    assert_eq!(s.slot(b).last_polled, None);
    assert_eq!(s.slot(c).last_polled, Some(t0));
    assert_eq!(s.due_slots(t0 + ms(10)), vec![b]);
}
