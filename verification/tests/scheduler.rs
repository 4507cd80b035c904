use squarekeys::scheduler::FrameScheduler;

const MS: u64 = 1_000_000;

#[test]
fn first_tick_reports_nothing() {
    let mut s = FrameScheduler::new();
    assert_eq!(s.tick(5 * MS), None);
    assert_eq!(s.window.len(), 0);
    assert_eq!(s.prev_tick, Some(5 * MS));
}

#[test]
fn one_interval_reports_its_own_rate() {
    let mut s = FrameScheduler::new();
    s.tick(0);
    // A 20 ms frame is 50 fps: 50_000 millihertz.
    assert_eq!(s.tick(20 * MS), Some(50_000));
}

#[test]
fn rolling_average_is_the_mean_of_the_window() {
    let mut s = FrameScheduler::new();
    s.tick(0);
    // 10 ms (100 fps), then 20 ms (50 fps): mean of the two samples.
    assert_eq!(s.tick(10 * MS), Some(100_000));
    assert_eq!(s.tick(30 * MS), Some(75_000));
    assert_eq!(s.window, vec![100_000, 50_000]);
}

#[test]
fn eleventh_sample_evicts_the_oldest() {
    let mut s = FrameScheduler::new();
    let mut now: u64 = 0;
    s.tick(now);
    for _ in 0..10 {
        now += 10 * MS;
        assert_eq!(s.tick(now), Some(100_000));
    }
    assert_eq!(s.window.len(), 10);
    // An 11th sample at 50 fps pushes the oldest 100 fps sample out:
    // (9 * 100_000 + 50_000) / 10.
    now += 20 * MS;
    assert_eq!(s.tick(now), Some(95_000));
    assert_eq!(s.window.len(), 10);
    assert_eq!(s.window[9], 50_000);
    assert_eq!(s.window[0], 100_000);
}

#[test]
fn pacing_at_120_hz() {
    // 120 Hz means an 8.333 ms interval; a 2 ms frame still waits 6.333 ms.
    let interval = FrameScheduler::target_interval_nanos(120);
    assert_eq!(interval, 8_333_333);
    assert_eq!(
        FrameScheduler::wait_duration_nanos(0, 2 * MS, interval),
        6_333_333
    );
}

#[test]
fn overrun_waits_zero_and_is_not_compensated() {
    let interval = FrameScheduler::target_interval_nanos(120);
    // A 20 ms frame already overran: the wait is zero, never negative.
    assert_eq!(FrameScheduler::wait_duration_nanos(0, 20 * MS, interval), 0);
    // Exactly on target also waits zero.
    assert_eq!(
        FrameScheduler::wait_duration_nanos(MS, MS + interval, interval),
        0
    );
    // The following interval is judged on its own: no catch-up debt.
    assert_eq!(
        FrameScheduler::wait_duration_nanos(20 * MS, 22 * MS, interval),
        interval - 2 * MS
    );
}

#[test]
fn integer_rates_come_out_exact() {
    let mut s = FrameScheduler::new();
    s.tick(0);
    // An 8.333333 ms frame is reported as 120.000 fps in millihertz.
    assert_eq!(s.tick(8_333_333), Some(120_000));
}
