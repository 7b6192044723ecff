use hello_ecs::timer::CountdownTimer;

#[test]
fn repeating_timer_wraps_modulo_threshold() {
    let mut t = CountdownTimer::from_nanos(2000, true);
    t.tick(500);
    assert!(!t.just_finished());
    t.tick(1700);
    assert!(t.just_finished());
    assert_eq!(t.elapsed, 200);
    t.tick(100);
    assert!(!t.just_finished());
    assert_eq!(t.elapsed, 300);
}

#[test]
fn repeating_timer_fires_once_on_a_long_tick() {
    let mut t = CountdownTimer::from_nanos(10, true);
    t.tick(35);
    assert!(t.just_finished());
    assert_eq!(t.elapsed, 5);
}

#[test]
fn exact_threshold_fires() {
    let mut t = CountdownTimer::from_nanos(4, true);
    t.tick(4);
    assert!(t.just_finished());
    assert_eq!(t.elapsed, 0);
}

#[test]
fn one_shot_timer_halts_at_threshold() {
    let mut t = CountdownTimer::from_nanos(10, false);
    t.tick(6);
    assert!(!t.just_finished());
    t.tick(6);
    assert!(t.just_finished());
    assert_eq!(t.elapsed, 10);
    t.tick(6);
    assert!(!t.just_finished());
    assert_eq!(t.elapsed, 10);
}

#[test]
fn zero_threshold() {
    let mut r = CountdownTimer::from_nanos(0, true);
    r.tick(3);
    assert!(r.just_finished());
    assert_eq!(r.elapsed, 0);
    let mut o = CountdownTimer::from_nanos(0, false);
    o.tick(3);
    assert!(!o.just_finished());
}

#[test]
fn largest_delta_does_not_overflow() {
    let mut t = CountdownTimer::from_nanos(u64::MAX, true);
    t.tick(u64::MAX - 1);
    assert!(!t.just_finished());
    t.tick(u64::MAX);
    assert!(t.just_finished());
    assert_eq!(t.elapsed, u64::MAX - 1);
}
