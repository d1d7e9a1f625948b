use bevy_diagnostic_visualizer::TickTimer;

#[test]
fn new_timer_has_accumulated_nothing() {
    let timer = TickTimer::new(20);
    assert_eq!(timer.interval_nanos(), 20);
    assert_eq!(timer.elapsed_nanos(), 0);
}

#[test]
fn ticks_below_the_interval_add_up() {
    let mut timer = TickTimer::new(20);
    assert!(!timer.tick(5));
    assert_eq!(timer.elapsed_nanos(), 5);
    assert!(!timer.tick(14));
    assert_eq!(timer.elapsed_nanos(), 19);
    assert!(!timer.tick(0));
    assert_eq!(timer.elapsed_nanos(), 19);
}

#[test]
fn reaching_the_interval_brings_the_timer_due() {
    let mut timer = TickTimer::new(20);
    assert!(!timer.tick(19));
    assert!(timer.tick(1));
    assert_eq!(timer.elapsed_nanos(), 0);
    assert!(timer.tick(20));
    assert_eq!(timer.elapsed_nanos(), 0);
}

#[test]
fn what_exceeds_the_interval_is_carried_over() {
    let mut timer = TickTimer::new(20);
    assert!(!timer.tick(15));
    assert!(timer.tick(15));
    assert_eq!(timer.elapsed_nanos(), 10);
    assert!(timer.tick(55));
    assert_eq!(timer.elapsed_nanos(), 5);
    assert_eq!(timer.interval_nanos(), 20);
}

#[test]
fn zero_interval_is_due_on_every_tick() {
    let mut timer = TickTimer::new(0);
    assert!(timer.tick(0));
    assert!(timer.tick(7));
    assert_eq!(timer.elapsed_nanos(), 0);
}

#[test]
fn largest_values_do_not_overflow() {
    let mut timer = TickTimer::new(u64::MAX);
    assert!(!timer.tick(u64::MAX - 1));
    assert_eq!(timer.elapsed_nanos(), u64::MAX - 1);
    assert!(timer.tick(u64::MAX));
    assert_eq!(timer.elapsed_nanos(), u64::MAX - 1);
    let mut timer = TickTimer::new(3);
    assert!(timer.tick(u64::MAX));
    assert_eq!(timer.elapsed_nanos(), u64::MAX % 3);
}
