use rift::common::debounce::Debouncer;
use rift::common::time::{Duration, Instant};

/// Some reading of the clock.
fn some_instant() -> Instant {
    Instant::from_nanos(5_000_000_000)
}

#[test]
fn fresh_debouncer_is_clean_and_never_fires() {
    let mut d = Debouncer::new(Duration::from_secs(1));
    let now = some_instant();
    assert!(!d.is_dirty());
    assert_eq!(d.deadline(), None);
    assert!(!d.poll(now));
}

#[test]
fn poll_before_deadline_does_not_fire() {
    let interval = Duration::from_secs(1);
    let mut d = Debouncer::new(interval);
    let now = some_instant();
    d.mark_dirty(now);
    assert!(d.is_dirty());
    assert!(!d.poll(now + Duration::from_millis(999)));
    assert!(d.is_dirty(), "still pending until the deadline passes");
}

#[test]
fn poll_at_or_after_deadline_fires_exactly_once() {
    let interval = Duration::from_secs(1);
    let mut d = Debouncer::new(interval);
    let now = some_instant();
    d.mark_dirty(now);
    assert!(d.poll(now + interval), "fires once the deadline is reached");
    assert!(!d.is_dirty(), "cleared after firing");
    assert!(!d.poll(now + interval * 2), "does not fire again while clean");
}

#[test]
fn mark_dirty_reextends_the_deadline() {
    let interval = Duration::from_secs(1);
    let mut d = Debouncer::new(interval);
    let t0 = some_instant();
    d.mark_dirty(t0);
    // A second edit half an interval in pushes the deadline out from that point.
    let t1 = t0 + Duration::from_millis(500);
    d.mark_dirty(t1);
    assert!(!d.poll(t0 + interval), "original deadline no longer applies");
    assert!(d.poll(t1 + interval), "fires relative to the latest mark_dirty");
}

#[test]
fn clear_cancels_a_pending_flush() {
    let mut d = Debouncer::new(Duration::from_secs(1));
    let now = some_instant();
    d.mark_dirty(now);
    d.clear();
    assert!(!d.is_dirty());
    assert!(!d.poll(now + Duration::from_secs(10)));
}

#[test]
fn the_deadline_is_an_interval_after_the_edit() {
    let mut d = Debouncer::new(Duration::from_nanos(7));
    d.mark_dirty(Instant::from_nanos(100));
    assert_eq!(d.deadline(), Some(Instant::from_nanos(107)));
    assert!(!d.poll(Instant::from_nanos(106)));
    assert_eq!(d.deadline(), Some(Instant::from_nanos(107)), "an early poll changes nothing");
    assert!(d.poll(Instant::from_nanos(107)));
}

#[test]
fn an_edit_after_a_fire_arms_again() {
    let mut d = Debouncer::new(Duration::from_millis(1));
    d.mark_dirty(Instant::from_nanos(0));
    assert!(d.poll(Instant::from_nanos(1_000_000)));
    d.mark_dirty(Instant::from_nanos(2_000_000));
    assert!(!d.poll(Instant::from_nanos(2_999_999)));
    assert!(d.poll(Instant::from_nanos(3_000_000)));
}

#[test]
fn durations_count_nanoseconds() {
    assert_eq!(Duration::from_secs(2).nanos, 2_000_000_000);
    assert_eq!(Duration::from_millis(3).nanos, 3_000_000);
    assert_eq!((Duration::from_millis(3) * 4).nanos, 12_000_000);
}
