use physim::mover::Movable;
use physim::{Mover, Point};

#[test]
fn new_mover_is_zeroed() {
    let m = Mover::new();
    assert_eq!(m.location(), Point::new());
    assert_eq!(m.velocity(), Point::new());
    assert_eq!(m.acceleration(), Point::new());
    assert_eq!(m.weight(), 0);
    assert_eq!(m.force_count(), 0);
    assert_eq!(m.sum(), Point::new());
    assert_eq!(m.force_sum(), Point::new());
}

#[test]
fn setters_overwrite_fields() {
    let mut m = Mover::new();
    m.set_location(1, 2, 3);
    m.set_velocity(4, 5, 6);
    m.set_accelaration(7, 8, 9);
    m.set_weight(10);
    assert_eq!(m.location(), Point::with(1, 2, 3));
    assert_eq!(m.velocity(), Point::with(4, 5, 6));
    assert_eq!(m.acceleration(), Point::with(7, 8, 9));
    assert_eq!(m.weight(), 10);
}

#[test]
fn forces_accumulate_in_the_sum() {
    let mut m = Mover::new();
    m.set_force("gravity".to_string(), 0, -9_800_000, 0);
    m.set_force("wind".to_string(), 300_000, 0, -100_000);
    assert_eq!(m.force_count(), 2);
    assert_eq!(m.sum(), Point::with(300_000, -9_800_000, -100_000));
    assert_eq!(m.force_sum(), m.sum());
}

#[test]
fn duplicate_ids_are_kept() {
    let mut m = Mover::new();
    m.set_force("thrust".to_string(), 1_000, 0, 0);
    m.set_force("thrust".to_string(), 2_000, 0, 0);
    assert_eq!(m.force_count(), 2);
    assert_eq!(m.sum(), Point::with(3_000, 0, 0));
}

#[test]
fn drop_removes_first_match_only() {
    let mut m = Mover::new();
    m.set_force("thrust".to_string(), 1_000, 0, 0);
    m.set_force("thrust".to_string(), 2_000, 0, 0);
    m.drop_force("thrust".to_string());
    // The first entry leaves; the second, later one stays.
    assert_eq!(m.force_count(), 1);
    assert_eq!(m.sum(), Point::with(2_000, 0, 0));
    m.drop_force("thrust".to_string());
    assert_eq!(m.force_count(), 0);
    assert_eq!(m.sum(), Point::new());
}

#[test]
fn drop_of_absent_id_is_a_silent_no_op() {
    let mut m = Mover::new();
    m.set_force("gravity".to_string(), 0, -9_800_000, 0);
    m.drop_force("wind".to_string());
    assert_eq!(m.force_count(), 1);
    assert_eq!(m.sum(), Point::with(0, -9_800_000, 0));
}

#[test]
fn drop_twice_is_a_no_op_the_second_time() {
    let mut m = Mover::new();
    m.set_force("gravity".to_string(), 0, -9_800_000, 0);
    m.set_force("wind".to_string(), 300_000, 0, 0);
    m.drop_force("gravity".to_string());
    let once = (m.force_count(), m.sum());
    m.drop_force("gravity".to_string());
    assert_eq!((m.force_count(), m.sum()), once);
}

#[test]
fn add_then_drop_restores_the_mover() {
    let mut m = Mover::new();
    m.set_location(5, 6, 7);
    m.set_velocity(8, 9, 10);
    m.set_weight(1_000_000);
    m.set_force("base".to_string(), 100, 200, 300);
    let sum_before = m.sum();
    let count_before = m.force_count();
    m.set_force("probe".to_string(), -4_000, 5_000, -6_000);
    m.drop_force("probe".to_string());
    assert_eq!(m.sum(), sum_before);
    assert_eq!(m.force_count(), count_before);
    assert_eq!(m.location(), Point::with(5, 6, 7));
    assert_eq!(m.velocity(), Point::with(8, 9, 10));
    assert_eq!(m.weight(), 1_000_000);
    assert_eq!(m.force_sum(), sum_before);
}

#[test]
fn force_sum_handles_large_opposed_entries() {
    let mut m = Mover::new();
    m.set_force("a".to_string(), i64::MAX, i64::MIN, 0);
    m.set_force("b".to_string(), -i64::MAX, i64::MAX, 0);
    assert_eq!(m.sum(), Point::with(0, -1, 0));
    assert_eq!(m.force_sum(), Point::with(0, -1, 0));
}

#[test]
fn tick_at_the_admitted_bounds() {
    // The largest admitted coordinates, the smallest nonzero weight (one
    // millionth) and the longest admitted time step (ten seconds) still
    // follow the recurrence exactly, with every value inside an i64.
    let mut m = Mover::new();
    m.set_weight(1);
    m.set_location(10_000_000_000, 0, 0);
    m.set_velocity(10_000_000_000, 0, 0);
    m.set_force("big".to_string(), 10_000_000_000, 0, 0);
    m.tick(10_000_000);
    assert_eq!(m.acceleration().x, 10_000_000_000_000_000);
    assert_eq!(m.velocity().x, 500_000_110_000_000_000);
    assert_eq!(m.location().x, 600_000_110_000_000_000);
}

#[test]
fn tick_matches_the_recurrence_exactly() {
    // Weight one, a single downward force of 9.8, rest at the origin, a
    // hundredth of a second: acceleration is the force over the weight;
    // velocity gains acceleration times dt squared times one half, which is
    // -0.00049; location gains acceleration times dt plus that velocity,
    // -0.098 - 0.00049 = -0.09849.
    let mut m = Mover::new();
    m.set_weight(1_000_000);
    m.set_force("g".to_string(), 0, -9_800_000, 0);
    m.tick(10_000);
    assert_eq!(m.acceleration(), Point::with(0, -9_800_000, 0));
    assert_eq!(m.velocity(), Point::with(0, -490, 0));
    assert_eq!(m.location(), Point::with(0, -98_490, 0));
}

#[test]
fn tick_overwrites_a_seeded_acceleration() {
    let mut m = Mover::new();
    m.set_weight(2_000_000);
    m.set_accelaration(7, 7, 7);
    m.set_force("pull".to_string(), 1_000_000, 0, 0);
    m.tick(0);
    // The seeded value is gone: acceleration is the force sum over the
    // weight, and a zero time step moves nothing else.
    assert_eq!(m.acceleration(), Point::with(500_000, 0, 0));
    assert_eq!(m.velocity(), Point::new());
    assert_eq!(m.location(), Point::new());
}

#[test]
fn tick_with_heavier_weight_halves_acceleration() {
    let mut m = Mover::new();
    m.set_weight(2_000_000);
    m.set_force("g".to_string(), 0, -9_800_000, 0);
    m.tick(10_000);
    assert_eq!(m.acceleration(), Point::with(0, -4_900_000, 0));
}

#[test]
fn tick_moves_with_initial_velocity() {
    // With no force and unit weight, acceleration is zero and location
    // becomes the old location plus velocity times dt.
    let mut m = Mover::new();
    m.set_weight(1_000_000);
    m.set_velocity(1_000_000, -2_000_000, 0);
    m.tick(500_000);
    assert_eq!(m.acceleration(), Point::new());
    assert_eq!(m.velocity(), Point::with(500_000, -1_000_000, 0));
    assert_eq!(m.location(), Point::with(500_000, -1_000_000, 0));
}
