use sim_lib::Timer;

#[test]
fn fresh_timer_has_no_average() {
    let mut t = Timer::new(50);
    assert_eq!(t.consume_average_time(), None);
}

#[test]
fn average_after_full_window() {
    let mut t = Timer::new(2);
    t.record(10);
    assert_eq!(t.consume_average_time(), None);
    t.record(25);
    assert_eq!(t.consume_average_time(), Some(17));
    assert_eq!(t.consume_average_time(), None);
    t.record(4);
    t.record(6);
    t.record(8);
    assert_eq!(t.consume_average_time(), Some(6));
}

#[test]
fn zero_window_waits_for_one_sample() {
    let mut t = Timer::new(0);
    assert_eq!(t.consume_average_time(), None);
    t.record(9);
    assert_eq!(t.consume_average_time(), Some(9));
}

#[test]
fn sum_saturates() {
    let mut t = Timer::new(2);
    t.record(u128::MAX);
    t.record(5);
    assert_eq!(t.consume_average_time(), Some(u128::MAX / 2));
}

#[test]
fn measurement_is_recorded() {
    let mut t = Timer::new(1);
    let m = t.start();
    m.end(&mut t);
    assert!(t.consume_average_time().is_some());
    assert_eq!(t.consume_average_time(), None);
}
