use physim::Point;
use physim::{HALF, SCALE};

fn p(x: i64, y: i64, z: i64) -> Point {
    Point::with(x, y, z)
}

#[test]
fn new_is_origin() {
    let v = Point::new();
    assert_eq!(v.x, 0);
    assert_eq!(v.y, 0);
    assert_eq!(v.z, 0);
}

#[test]
fn with_and_set() {
    let mut v = p(1, -2, 3);
    assert_eq!((v.x, v.y, v.z), (1, -2, 3));
    v.set(-7, 8, -9);
    assert_eq!((v.x, v.y, v.z), (-7, 8, -9));
    v.x(10);
    v.y(11);
    v.z(12);
    assert_eq!((v.x, v.y, v.z), (10, 11, 12));
}

#[test]
fn add_componentwise() {
    let a = p(1_000_000, -2_000_000, 300_000);
    let b = p(500_000, 2_500_000, -300_000);
    let s = a.add(b);
    assert_eq!((s.x, s.y, s.z), (1_500_000, 500_000, 0));
}

#[test]
fn sub_componentwise() {
    let a = p(1_000_000, -2_000_000, 300_000);
    let b = p(500_000, 2_500_000, -300_000);
    let d = a.sub(b);
    assert_eq!((d.x, d.y, d.z), (500_000, -4_500_000, 600_000));
}

#[test]
fn add_commutes_on_samples() {
    let a = p(123, -456, 789);
    let b = p(-321, 654, -987);
    assert_eq!(a.add(b), b.add(a));
}

#[test]
fn add_associates_on_samples() {
    let a = p(1_000, 2_000, -3_000);
    let b = p(-500, 700, 900);
    let c = p(42, -42, 0);
    assert_eq!(a.add(b).add(c), a.add(b.add(c)));
}

#[test]
fn mul_scales_by_half() {
    let v = p(2_000_000, -3_000_000, 500_000);
    let r = v.mul(HALF);
    assert_eq!((r.x, r.y, r.z), (1_000_000, -1_500_000, 250_000));
}

#[test]
fn mul_truncates_toward_zero() {
    // Half of one millionth truncates away, for either sign.
    assert_eq!(p(1, 0, 0).mul(HALF), Point::new());
    assert_eq!(p(-1, 0, 0).mul(HALF), Point::new());
    // Minus 0.000003 times one half is minus 0.0000015: truncation toward
    // zero gives minus 0.000001, not minus 0.000002.
    assert_eq!(p(-3, 0, 0).mul(HALF).x, -1);
}

#[test]
fn div_by_two() {
    let v = p(7_000_000, -9_000_000, 1);
    let r = v.div(2 * SCALE);
    assert_eq!((r.x, r.y, r.z), (3_500_000, -4_500_000, 0));
}

#[test]
fn div_truncates_toward_zero() {
    // Minus 0.000003 divided by two gives minus 0.0000015: truncated toward
    // zero, minus 0.000001.
    assert_eq!(p(-3, 0, 0).div(2 * SCALE).x, -1);
}

#[test]
fn scale_distributes_when_exact() {
    // Whole scalars leave no fixed-point remainder, so distribution is exact.
    let a = p(3_000_000, -4_000_000, 5_000_000);
    let b = p(1_000_000, 2_000_000, -8_000_000);
    let s = 3 * SCALE;
    assert_eq!(a.add(b).mul(s), a.mul(s).add(b.mul(s)));
}

#[test]
fn div_inverts_exact_scale() {
    let v = p(123_000_000, -456_000_000, 789_000_000);
    let s = 4 * SCALE;
    assert_eq!(v.mul(s).div(s), v);
}

#[test]
fn div_by_two_equals_scale_by_half() {
    // Two has the exact fixed-point reciprocal one half, so dividing by it
    // is the same as scaling by the reciprocal, truncation and all.
    let v = p(7_000_001, -9_000_003, 123_457);
    assert_eq!(v.div(2 * SCALE), v.mul(HALF));
}

#[test]
fn div_by_ten_equals_scale_by_tenth() {
    let v = p(5_000_000, -1, 999_999);
    assert_eq!(v.div(10 * SCALE), v.mul(SCALE / 10));
}

#[test]
fn scale_by_one_is_identity() {
    let v = p(123_456, -654_321, 42);
    assert_eq!(v.mul(SCALE), v);
}
