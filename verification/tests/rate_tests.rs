use zync::rate::AdaptiveRate;

#[test]
fn new_starts_without_a_history() {
    let rate = AdaptiveRate::new(100, 150, 500, 500);
    assert_eq!(rate.target_interval, 100);
    assert_eq!(rate.current_interval, 150);
    assert_eq!(rate.max_interval, 500);
    assert_eq!(rate.consecutive_failures, 0);
    assert_eq!(rate.consecutive_successes, 0);
    assert_eq!(rate.percent_thread_work, 500);
}

#[test]
fn new_from_fps_starts_at_the_target() {
    let rate = AdaptiveRate::new_from_fps(10, 500, 300);
    assert_eq!(rate.target_interval, 100);
    assert_eq!(rate.current_interval, 100);
    assert_eq!(rate.max_interval, 500);
    assert_eq!(AdaptiveRate::new_from_fps(3, 500, 300).target_interval, 333);
    assert_eq!(AdaptiveRate::new_from_fps(2000, 500, 300).target_interval, 0);
}

#[test]
fn ten_failures_reach_the_maximum() {
    let mut rate = AdaptiveRate::new(100, 100, 500, 500);
    let mut seen = Vec::new();
    for _ in 0..10 {
        rate.on_failure();
        assert!(rate.current_interval <= 500);
        seen.push(rate.current_interval);
    }
    assert_eq!(seen, vec![110, 120, 130, 140, 150, 160, 170, 180, 190, 500]);
    assert_eq!(rate.current_interval, 500);
    assert_eq!(rate.consecutive_failures, 10);
    rate.on_failure();
    assert_eq!(rate.current_interval, 500);
}

#[test]
fn successes_return_to_the_target() {
    let mut rate = AdaptiveRate::new(100, 100, 500, 500);
    for _ in 0..10 {
        rate.on_failure();
    }
    let mut calls = 0;
    while rate.current_interval != 100 {
        rate.on_success();
        calls += 1;
        assert!(rate.current_interval >= 100);
        assert!(rate.current_interval <= 500);
        assert!(calls <= 407);
    }
    assert_eq!(rate.current_interval, 100);
    rate.on_success();
    assert_eq!(rate.current_interval, 100);
}

#[test]
fn recovery_waits_for_enough_successes() {
    let mut rate = AdaptiveRate::new(100, 200, 500, 500);
    for _ in 0..6 {
        rate.on_success();
        assert_eq!(rate.current_interval, 200);
    }
    assert_eq!(rate.consecutive_successes, 6);
    rate.on_success();
    assert_eq!(rate.current_interval, 180);
    rate.on_success();
    assert_eq!(rate.current_interval, 164);
    rate.on_success();
    // 164 - (64 / 5) = 152
    assert_eq!(rate.current_interval, 152);
}

#[test]
fn a_small_gap_is_closed_at_once() {
    let mut rate = AdaptiveRate::new(100, 110, 500, 500);
    rate.on_success();
    assert_eq!(rate.current_interval, 100);
    assert_eq!(rate.consecutive_successes, 1);
    let mut below = AdaptiveRate::new(100, 40, 500, 500);
    below.on_success();
    assert_eq!(below.current_interval, 100);
    let mut wide = AdaptiveRate::new(100, 111, 500, 500);
    wide.on_success();
    assert_eq!(wide.current_interval, 111);
}

#[test]
fn a_failure_resets_the_successes_and_the_other_way_round() {
    let mut rate = AdaptiveRate::new(100, 100, 500, 500);
    rate.on_success();
    rate.on_success();
    assert_eq!(rate.consecutive_successes, 2);
    rate.on_failure();
    assert_eq!(rate.consecutive_successes, 0);
    assert_eq!(rate.consecutive_failures, 1);
    rate.on_success();
    assert_eq!(rate.consecutive_failures, 0);
    assert_eq!(rate.consecutive_successes, 1);
}

#[test]
fn a_step_never_goes_beyond_the_maximum() {
    let mut rate = AdaptiveRate::new(100, 495, 500, 500);
    rate.on_failure();
    assert_eq!(rate.current_interval, 500);
    let mut over = AdaptiveRate::new(100, 900, 500, 500);
    over.on_failure();
    assert_eq!(over.current_interval, 500);
    let mut edge = AdaptiveRate::new(0, u64::MAX - 3, u64::MAX, 500);
    edge.on_failure();
    assert_eq!(edge.current_interval, u64::MAX);
}

#[test]
fn the_counters_stop_at_their_limit() {
    let mut rate = AdaptiveRate::new(100, 100, 500, 500);
    rate.consecutive_failures = u16::MAX;
    rate.on_failure();
    assert_eq!(rate.consecutive_failures, u16::MAX);
    assert_eq!(rate.current_interval, 500);
    rate.consecutive_successes = u16::MAX;
    rate.on_success();
    assert_eq!(rate.consecutive_successes, u16::MAX);
}

#[test]
fn the_work_limit_is_the_share_of_the_interval() {
    assert_eq!(AdaptiveRate::new(100, 100, 500, 500).work_limit(), 50);
    assert_eq!(AdaptiveRate::new(100, 100, 500, 333).work_limit(), 33);
    assert_eq!(AdaptiveRate::new(100, 100, 500, 0).work_limit(), 0);
    assert_eq!(
        AdaptiveRate::new(0, u64::MAX, u64::MAX, u32::MAX).work_limit(),
        u64::MAX as u128 * u32::MAX as u128 / 1000
    );
}

#[test]
fn light_work_takes_the_success_path() {
    let mut rate = AdaptiveRate::new(100, 100, 500, 500);
    let sleep = rate.adjust_timing(40);
    assert_eq!(sleep, 60);
    assert_eq!(rate.current_interval, 100);
    assert_eq!(rate.consecutive_successes, 1);
    assert_eq!(rate.consecutive_failures, 0);
}

#[test]
fn heavy_work_takes_the_failure_path() {
    let mut rate = AdaptiveRate::new(100, 100, 500, 500);
    let sleep = rate.adjust_timing(60);
    assert_eq!(rate.current_interval, 110);
    assert_eq!(rate.consecutive_failures, 1);
    assert_eq!(rate.consecutive_successes, 0);
    // the work is taken from the interval of 100 that the tick ran under
    assert_eq!(sleep, 40);
}

#[test]
fn work_at_the_limit_is_still_a_success() {
    let mut rate = AdaptiveRate::new(100, 100, 500, 500);
    let sleep = rate.adjust_timing(50);
    assert_eq!(rate.consecutive_successes, 1);
    assert_eq!(sleep, 50);
}

#[test]
fn the_sleep_is_taken_from_the_interval_before_the_adjustment() {
    // a failure raises the interval to 210, the sleep is still 200 - 150
    let mut slowed = AdaptiveRate::new(100, 200, 500, 500);
    assert_eq!(slowed.adjust_timing(150), 50);
    assert_eq!(slowed.current_interval, 210);
    // a success closes the gap to the target, the sleep is still 110 - 30
    let mut eased = AdaptiveRate::new(100, 110, 500, 500);
    assert_eq!(eased.adjust_timing(30), 80);
    assert_eq!(eased.current_interval, 100);
    // work between the old and the new interval leaves no sleep
    let mut tight = AdaptiveRate::new(100, 100, 500, 500);
    assert_eq!(tight.adjust_timing(105), 0);
    assert_eq!(tight.current_interval, 110);
}

#[test]
fn work_beyond_the_interval_leaves_no_sleep() {
    let mut rate = AdaptiveRate::new(100, 100, 500, 500);
    assert_eq!(rate.adjust_timing(110), 0);
    assert_eq!(rate.current_interval, 110);
    assert_eq!(rate.adjust_timing(5000), 0);
    assert_eq!(rate.current_interval, 120);
}
