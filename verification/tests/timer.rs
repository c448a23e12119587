use minifb_tile_base::tools::timer::Timer;
use std::time::{Duration, Instant};

#[test]
fn a_new_timer_has_read_no_time() {
    let timer = Timer::new(Duration::from_millis(10));
    assert_eq!(timer.duration, Duration::from_millis(10));
    assert_eq!(timer.get_duration(), Duration::from_millis(10));
    assert!(!timer.is_finished());
}

#[test]
fn a_timer_without_duration_is_finished_at_once() {
    let timer = Timer::new(Duration::ZERO);
    assert!(timer.is_finished());
}

#[test]
fn is_finished_compares_the_time_read_with_the_duration() {
    let mut timer = Timer::new(Duration::from_millis(10));
    timer.record(Duration::from_millis(9));
    assert!(!timer.is_finished());
    timer.record(Duration::from_millis(10));
    assert!(timer.is_finished());
    timer.record(Duration::new(5, 0));
    assert!(timer.is_finished());
    timer.record(Duration::from_nanos(9_999_999));
    assert!(!timer.is_finished());
    timer.set_duration(Duration::from_nanos(9_999_999));
    assert!(timer.is_finished());
}

#[test]
fn seconds_count_more_than_nanoseconds() {
    let mut timer = Timer::new(Duration::new(1, 0));
    timer.record(Duration::new(0, 999_999_999));
    assert!(!timer.is_finished());
    timer.record(Duration::new(1, 0));
    assert!(timer.is_finished());
    timer.record(Duration::new(2, 0));
    timer.set_duration(Duration::new(1, 999_999_999));
    assert!(timer.is_finished());
}

#[test]
fn reset_forgets_the_time_read() {
    let mut timer = Timer::new(Duration::from_millis(10));
    timer.record(Duration::from_secs(1));
    assert!(timer.is_finished());
    timer.reset();
    assert!(!timer.is_finished());
    assert_eq!(timer.get_duration(), Duration::from_millis(10));
}

#[test]
fn update_reads_the_clock() {
    let mut timer = Timer::new(Duration::from_secs(3600));
    timer.update();
    assert!(!timer.is_finished());
    assert_eq!(timer.get_duration(), Duration::from_secs(3600));
    let mut short = Timer::new(Duration::from_nanos(1));
    let start = Instant::now();
    while start.elapsed() < Duration::from_millis(2) {}
    short.update();
    assert!(short.is_finished());
    short.reset();
    assert!(!short.is_finished());
}
