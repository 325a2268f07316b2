use physim::{Mover, Point, Timer};

fn gravity_mover() -> Mover {
    let mut m = Mover::new();
    m.set_weight(1_000_000);
    m.set_force("g".to_string(), 0, -9_800_000, 0);
    m
}

#[test]
fn new_timer_defaults() {
    let t = Timer::new();
    assert_eq!(t.min_duration(), 7);
    assert_eq!(t.start(), 0);
    assert_eq!(t.last_instant(), 0);
    assert_eq!(t.mover_count(), 0);
    assert!(t.print_location());
    assert!(t.print_dt());
}

#[test]
fn set_min_duration_overrides_the_default() {
    let mut t = Timer::new();
    t.set_min_duration(1000 / 142);
    assert_eq!(t.min_duration(), 7);
    t.set_min_duration(16);
    assert_eq!(t.min_duration(), 16);
}

#[test]
fn register_keeps_order() {
    let mut t = Timer::new();
    let mut a = Mover::new();
    a.set_weight(1_000_000);
    let mut b = Mover::new();
    b.set_weight(2_000_000);
    t.register_mover(a);
    t.register_mover(b);
    assert_eq!(t.mover_count(), 2);
    assert_eq!(t.mover_at(0).weight(), 1_000_000);
    assert_eq!(t.mover_at(1).weight(), 2_000_000);
}

#[test]
fn begin_seeds_both_instants() {
    let mut t = Timer::new();
    t.begin(125);
    assert_eq!(t.start(), 125);
    assert_eq!(t.last_instant(), 125);
}

#[test]
fn short_elapsed_is_refused_and_changes_nothing() {
    let mut t = Timer::new();
    t.register_mover(gravity_mover());
    t.begin(0);
    let ticked = t.step(6);
    assert!(!ticked);
    assert_eq!(t.last_instant(), 0);
    let m = t.mover_at(0);
    assert_eq!(m.location(), Point::new());
    assert_eq!(m.velocity(), Point::new());
    assert_eq!(m.acceleration(), Point::new());
}

#[test]
fn elapsed_at_the_minimum_is_admitted() {
    let mut t = Timer::new();
    t.register_mover(gravity_mover());
    t.begin(0);
    let ticked = t.step(7);
    assert!(ticked);
    assert_eq!(t.last_instant(), 7);
}

#[test]
fn admitted_tick_uses_the_measured_elapsed_time() {
    // Nine milliseconds elapse: dt is 0.009, not the seven-millisecond
    // minimum. acceleration is -9.8; dt squared is 0.000081; acceleration
    // times that truncates to -0.000793, halved and truncated -0.000396;
    // location gains acceleration times dt, -0.0882, plus that velocity.
    let mut t = Timer::new();
    t.register_mover(gravity_mover());
    t.begin(0);
    let ticked = t.step(9);
    assert!(ticked);
    assert_eq!(t.last_instant(), 9);
    let m = t.mover_at(0);
    assert_eq!(m.acceleration(), Point::with(0, -9_800_000, 0));
    assert_eq!(m.velocity(), Point::with(0, -396, 0));
    assert_eq!(m.location(), Point::with(0, -88_596, 0));
}

#[test]
fn last_instant_moves_to_the_sampling_instant() {
    let mut t = Timer::new();
    t.register_mover(gravity_mover());
    t.begin(0);
    assert!(t.step(9));
    // Only five milliseconds later: refused, the instant stays at nine.
    assert!(!t.step(14));
    assert_eq!(t.last_instant(), 9);
    // Eleven milliseconds after the last admitted tick: admitted.
    assert!(t.step(20));
    assert_eq!(t.last_instant(), 20);
}

#[test]
fn every_registered_mover_ticks_once() {
    let mut t = Timer::new();
    t.register_mover(gravity_mover());
    let mut other = Mover::new();
    other.set_weight(1_000_000);
    other.set_velocity(1_000_000, 0, 0);
    t.register_mover(other);
    t.begin(0);
    assert!(t.step(10));
    assert_eq!(t.mover_at(0).acceleration(), Point::with(0, -9_800_000, 0));
    // dt is 0.01: the second mover drifts by velocity times dt.
    assert_eq!(t.mover_at(1).location(), Point::with(10_000, 0, 0));
}

#[test]
fn try_step_refuses_a_clock_running_backwards() {
    let mut t = Timer::new();
    t.begin(100);
    assert_eq!(t.try_step(99), None);
    assert_eq!(t.last_instant(), 100);
}

#[test]
fn try_step_refuses_a_zero_weight_mover() {
    let mut t = Timer::new();
    let mut m = Mover::new();
    m.set_force("g".to_string(), 0, -9_800_000, 0);
    t.register_mover(m);
    t.begin(0);
    assert_eq!(t.try_step(8), None);
    assert_eq!(t.last_instant(), 0);
}

#[test]
fn try_step_refuses_an_overlong_gap() {
    let mut t = Timer::new();
    t.register_mover(gravity_mover());
    t.begin(0);
    assert_eq!(t.try_step(10_001), None);
    assert_eq!(t.last_instant(), 0);
}

#[test]
fn try_step_passes_a_ready_mover_through() {
    let mut t = Timer::new();
    t.register_mover(gravity_mover());
    t.begin(0);
    assert_eq!(t.try_step(6), Some(false));
    assert_eq!(t.try_step(9), Some(true));
    assert_eq!(t.last_instant(), 9);
    assert_eq!(t.mover_at(0).velocity(), Point::with(0, -396, 0));
}
