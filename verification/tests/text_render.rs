use physim::text::scalar_text;
use physim::{Mover, Point};

#[test]
fn whole_numbers_render_with_three_zeros() {
    assert_eq!(scalar_text(0), "0.000");
    assert_eq!(scalar_text(1_000_000), "1.000");
    assert_eq!(scalar_text(-2_000_000), "-2.000");
    assert_eq!(scalar_text(142_000_000), "142.000");
}

#[test]
fn fractions_truncate_to_three_places() {
    assert_eq!(scalar_text(1_234_567), "1.234");
    assert_eq!(scalar_text(-9_800_000), "-9.800");
    assert_eq!(scalar_text(-98_490), "-0.098");
    assert_eq!(scalar_text(999), "0.000");
    assert_eq!(scalar_text(-999), "-0.000");
    assert_eq!(scalar_text(7_000), "0.007");
}

#[test]
fn point_renders_comma_separated() {
    let p = Point::with(1_000_000, -9_800_000, 0);
    assert_eq!(p.text(), "1.000, -9.800, 0.000");
}

#[test]
fn mover_report_lists_all_four_vectors() {
    let mut m = Mover::new();
    m.set_location(1_000_000, 2_000_000, 3_000_000);
    m.set_velocity(-500_000, 0, 250_000);
    m.set_force("g".to_string(), 0, -9_800_000, 0);
    let expected = "----------------------------------------------\n\
                    Loc: 1.000, 2.000, 3.000\n\
                    Vel: -0.500, 0.000, 0.250\n\
                    Acc: 0.000, 0.000, 0.000\n\
                    Frc: 0.000, -9.800, 0.000\n";
    assert_eq!(m.report(), expected);
}
