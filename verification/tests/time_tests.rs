use micro3d::time::{Duration, TimeState, Timer, MAX_DURATION_NANOS};

#[test]
fn duration_constructors() {
    assert_eq!(Duration::zero().as_nanos(), 0);
    assert!(Duration::zero().is_zero());
    assert_eq!(Duration::from_secs(2).as_nanos(), 2_000_000_000);
    assert_eq!(Duration::from_millis(16).as_nanos(), 16_000_000);
    assert_eq!(Duration::from_nanos(5).as_nanos(), 5);
    let d = Duration::new(3, 1_500_000_000);
    assert_eq!(d.as_nanos(), 4_500_000_000);
    assert_eq!(d.as_secs(), 4);
    assert_eq!(d.subsec_nanos(), 500_000_000);
}

#[test]
fn duration_arithmetic() {
    let a = Duration::from_millis(700);
    let b = Duration::from_millis(500);
    assert_eq!(a.checked_add(b), Some(Duration::from_millis(1200)));
    assert_eq!(a.saturating_sub(b), Duration::from_millis(200));
    assert_eq!(b.saturating_sub(a), Duration::zero());
    let max = Duration::new(u64::MAX, 999_999_999);
    assert_eq!(max.as_nanos(), MAX_DURATION_NANOS);
    assert_eq!(max.checked_add(Duration::from_nanos(1)), None);
    assert_eq!(max.checked_add(Duration::zero()), Some(max));
}

#[test]
fn one_shot_timer_finishes_once() {
    let mut t = Timer::once(Duration::from_secs(1));
    assert!(!t.just_finished());
    assert!(!t.tick(Duration::from_millis(600)));
    assert_eq!(t.remaining(), Duration::from_millis(400));
    assert!(t.tick(Duration::from_millis(600)));
    assert!(t.just_finished());
    assert_eq!(t.remaining(), Duration::zero());
    assert!(!t.tick(Duration::from_millis(600)));
    assert!(t.just_finished());
    assert_eq!(t.elapsed(), Duration::from_millis(1200));
}

#[test]
fn repeating_timer_starts_over() {
    let mut t = Timer::repeating(Duration::from_secs(1));
    assert!(!t.tick(Duration::from_millis(500)));
    assert!(t.tick(Duration::from_millis(700)));
    assert!(t.just_finished());
    assert_eq!(t.elapsed(), Duration::zero());
    assert!(!t.tick(Duration::from_millis(300)));
    assert!(!t.just_finished());
    assert_eq!(t.remaining(), Duration::from_millis(700));
}

#[test]
fn repeating_timer_of_exact_duration_reports_finish() {
    let mut t = Timer::repeating(Duration::from_millis(100));
    assert!(t.tick(Duration::from_millis(100)));
    assert!(t.just_finished());
    assert!(t.tick(Duration::from_millis(100)));
    assert!(t.just_finished());
}

#[test]
fn reset_one_shot_fires_again() {
    let mut t = Timer::once(Duration::from_millis(50));
    assert!(t.tick(Duration::from_millis(50)));
    t.reset();
    assert!(!t.just_finished());
    assert_eq!(t.remaining(), Duration::from_millis(50));
    assert!(t.tick(Duration::from_millis(50)));
    assert!(t.just_finished());
}

#[test]
fn duration_stays_in_range() {
    let max = Duration::new(u64::MAX, 999_999_999);
    assert!(max.as_nanos() <= MAX_DURATION_NANOS);
    assert_eq!(Duration::new(u64::MAX, 0).checked_add(Duration::from_secs(1)), None);
}

#[test]
fn zero_duration_timer_completes_on_first_tick() {
    let mut t = Timer::new(Duration::zero(), false);
    assert!(t.tick(Duration::zero()));
    assert!(t.just_finished());
}

#[test]
fn reset_timer_runs_again() {
    let mut t = Timer::once(Duration::from_secs(1));
    assert!(t.tick(Duration::from_secs(2)));
    t.reset();
    assert!(!t.just_finished());
    assert_eq!(t.elapsed(), Duration::zero());
    assert_eq!(t.duration(), Duration::from_secs(1));
    assert!(!t.tick(Duration::from_millis(10)));
    let copy = t.clone();
    assert_eq!(copy.elapsed(), Duration::from_millis(10));
}

#[test]
fn new_time_state_is_at_frame_zero() {
    let t = TimeState::new();
    assert_eq!(t.frame_count(), 0);
    assert_eq!(t.delta(), Duration::zero());
    assert_eq!(t.elapsed(), Duration::zero());
    assert!(t.is_first_frame());
    assert!(t.frame_times().is_empty());
    assert_eq!(t.frame_time_total(), Some(Duration::zero()));
    assert_eq!(TimeState::default().frame_count(), 0);
}

#[test]
fn record_frame_updates_counters() {
    let mut t = TimeState::new();
    t.record_frame(Duration::from_millis(16), Duration::from_millis(16));
    assert_eq!(t.frame_count(), 1);
    assert!(t.is_first_frame());
    t.record_frame(Duration::from_millis(17), Duration::from_millis(33));
    assert_eq!(t.frame_count(), 2);
    assert!(!t.is_first_frame());
    assert_eq!(t.delta(), Duration::from_millis(17));
    assert_eq!(t.elapsed(), Duration::from_millis(33));
    assert_eq!(t.frame_times(), &[Duration::from_millis(16), Duration::from_millis(17)]);
    assert_eq!(t.frame_time_total(), Some(Duration::from_millis(33)));
}

#[test]
fn history_keeps_last_sixty_frames() {
    let mut t = TimeState::new();
    for i in 0..70u64 {
        t.record_frame(Duration::from_millis(i), Duration::from_millis(i));
    }
    let times = t.frame_times();
    assert_eq!(times.len(), 60);
    assert_eq!(times[0], Duration::from_millis(10));
    assert_eq!(times[59], Duration::from_millis(69));
    let expected: u128 = (10..70u128).map(|m| m * 1_000_000).sum();
    assert_eq!(t.frame_time_total().map(|d| d.as_nanos()), Some(expected));
}

#[test]
fn frame_time_total_out_of_range() {
    let mut t = TimeState::new();
    let max = Duration::new(u64::MAX, 999_999_999);
    t.record_frame(max, max);
    t.record_frame(Duration::from_nanos(1), max);
    assert_eq!(t.frame_time_total(), None);
}

#[test]
fn update_reads_the_clock() {
    let mut t = TimeState::new();
    t.update();
    assert_eq!(t.frame_count(), 1);
    let first_elapsed = t.elapsed();
    t.update();
    assert_eq!(t.frame_count(), 2);
    assert!(t.elapsed().as_nanos() >= first_elapsed.as_nanos());
    assert!(t.elapsed().as_nanos() >= t.delta().as_nanos());
    assert_eq!(t.frame_times().len(), 2);
}

#[test]
fn reset_returns_to_frame_zero() {
    let mut t = TimeState::new();
    t.record_frame(Duration::from_millis(16), Duration::from_millis(16));
    t.reset();
    assert_eq!(t.frame_count(), 0);
    assert_eq!(t.delta(), Duration::zero());
    assert_eq!(t.elapsed(), Duration::zero());
    assert!(t.frame_times().is_empty());
}

#[test]
fn update_reports_span_since_last_reading() {
    let mut t = TimeState::new();
    t.update();
    let first = t.elapsed();
    assert_eq!(t.delta(), first);
    t.update();
    let second = t.elapsed();
    assert!(second.as_nanos() >= first.as_nanos());
    assert_eq!(t.delta().as_nanos(), second.as_nanos() - first.as_nanos());
}

#[test]
fn update_after_reset_measures_from_reset() {
    let mut t = TimeState::new();
    t.record_frame(Duration::from_secs(1), Duration::from_secs(1000));
    t.reset();
    t.update();
    assert_eq!(t.frame_count(), 1);
    assert!(t.elapsed().as_nanos() < Duration::from_secs(1000).as_nanos());
    assert_eq!(t.delta(), t.elapsed());
}

#[test]
fn update_reports_nothing_when_reading_is_behind() {
    let mut t = TimeState::new();
    t.record_frame(Duration::from_secs(1), Duration::from_secs(100_000));
    t.update();
    assert_eq!(t.delta(), Duration::zero());
    assert_eq!(t.frame_count(), 2);
}

#[test]
fn started_and_restarted_at_an_instant() {
    let now = std::time::Instant::now();
    let mut t = TimeState::started_at(now);
    assert_eq!(t.frame_count(), 0);
    t.record_frame(Duration::from_millis(5), Duration::from_millis(5));
    t.restart_at(std::time::Instant::now());
    assert_eq!(t.frame_count(), 0);
    assert_eq!(t.elapsed(), Duration::zero());
    assert!(t.frame_times().is_empty());
}

#[test]
fn update_at_measures_from_the_start_reading() {
    let start = std::time::Instant::now();
    let mut t = TimeState::started_at(start);
    let later = start + std::time::Duration::from_millis(250);
    t.update_at(later);
    assert_eq!(t.frame_count(), 1);
    assert_eq!(t.elapsed(), Duration::from_millis(250));
    assert_eq!(t.delta(), Duration::from_millis(250));
    t.update_at(start + std::time::Duration::from_millis(400));
    assert_eq!(t.elapsed(), Duration::from_millis(400));
    assert_eq!(t.delta(), Duration::from_millis(150));
    t.restart_at(later);
    t.update_at(start + std::time::Duration::from_millis(400));
    assert_eq!(t.elapsed(), Duration::from_millis(150));
    assert_eq!(t.delta(), Duration::from_millis(150));
    t.update_at(start);
    assert_eq!(t.elapsed(), Duration::zero());
    assert_eq!(t.delta(), Duration::zero());
}

#[test]
fn one_shot_remaining_after_ticks() {
    let mut t = Timer::once(Duration::from_millis(100));
    let mut fired = 0;
    for ms in [30u64, 30, 30, 30, 30] {
        if t.tick(Duration::from_millis(ms)) {
            fired += 1;
        }
    }
    assert_eq!(fired, 1);
    assert_eq!(t.remaining(), Duration::zero());
    let mut u = Timer::once(Duration::from_millis(100));
    u.tick(Duration::from_millis(30));
    u.tick(Duration::from_millis(45));
    assert_eq!(u.remaining(), Duration::from_millis(25));
}
