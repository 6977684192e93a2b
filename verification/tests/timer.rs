use baam_3ds::timer::{BackoffTimer, PeriodicSkippingTimer};

#[test]
fn periodic_timer_fires_once_per_period_and_skips_missed_ones() {
    let mut t = PeriodicSkippingTimer::new(500);
    assert!(t.update(0));
    assert!(!t.update(499));
    assert!(t.update(500));
    // far behind: fires once and lands on the next boundary after the tick
    assert!(t.update(2750));
    assert!(!t.update(2999));
    assert!(t.update(3000));
}

#[test]
fn periodic_timer_reset_restarts_the_period() {
    let mut t = PeriodicSkippingTimer::new(500);
    t.reset(100);
    assert!(!t.update(599));
    assert!(t.update(600));
    assert!(!t.update(1099));
}

#[test]
fn backoff_timer_delays_and_resets() {
    let mut t = BackoffTimer::new();
    assert!(t.ready(0));
    t.delay(15);
    assert!(!t.ready(14));
    assert!(t.ready(15));
    t.delay(150);
    assert!(!t.ready(164));
    assert!(t.ready(165));
    t.reset(3);
    assert!(t.ready(3));
    assert!(!t.ready(2));
}
