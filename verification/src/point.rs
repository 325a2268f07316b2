//! Three-dimensional vectors over fixed-point scalars.
//!
//! A [`Point`] is a plain value: three independent components, copied on
//! every operation. Its mathematical view is a [`V3`] of unbounded integers,
//! and every operation's contract states the resulting view exactly.

use crate::scalar::{fxdiv, fxmul, SCALE};
use vstd::prelude::*;

verus! {

/// A 3D vector of fixed-point scalars (each an `i64` counting millionths).
#[derive(Debug, Clone, Copy, PartialEq, Eq, Structural)]
pub struct Point {
    pub x: i64,
    pub y: i64,
    pub z: i64,
}

/// The mathematical value of a [`Point`]: three unbounded integers, still in
/// fixed-point units.
#[verifier::ext_equal]
pub ghost struct V3 {
    pub x: int,
    pub y: int,
    pub z: int,
}

impl View for Point {
    type V = V3;

    open spec fn view(&self) -> V3 {
        V3 { x: self.x as int, y: self.y as int, z: self.z as int }
    }
}

/// Component-wise sum.
pub open spec fn v3_add(a: V3, b: V3) -> V3 {
    V3 { x: a.x + b.x, y: a.y + b.y, z: a.z + b.z }
}

/// Component-wise difference.
pub open spec fn v3_sub(a: V3, b: V3) -> V3 {
    V3 { x: a.x - b.x, y: a.y - b.y, z: a.z - b.z }
}

/// Component-wise fixed-point product with a scalar.
pub open spec fn v3_scale(a: V3, s: int) -> V3 {
    V3 { x: fxmul(a.x, s), y: fxmul(a.y, s), z: fxmul(a.z, s) }
}

/// Component-wise fixed-point quotient by a scalar.
pub open spec fn v3_div(a: V3, s: int) -> V3 {
    V3 { x: fxdiv(a.x, s), y: fxdiv(a.y, s), z: fxdiv(a.z, s) }
}

/// The zero vector.
pub open spec fn v3_zero() -> V3 {
    V3 { x: 0, y: 0, z: 0 }
}

/// Whether every component of `a` fits in an `i64`.
pub open spec fn v3_fits(a: V3) -> bool {
    &&& i64::MIN <= a.x <= i64::MAX
    &&& i64::MIN <= a.y <= i64::MAX
    &&& i64::MIN <= a.z <= i64::MAX
}

impl Point {
    /// The origin.
    pub fn new() -> (r: Point)
        ensures
            r@ == v3_zero(),
    {
        Point { x: 0, y: 0, z: 0 }
    }

    /// A vector with the given components.
    pub fn with(x: i64, y: i64, z: i64) -> (r: Point)
        ensures
            r@ == (V3 { x: x as int, y: y as int, z: z as int }),
    {
        Point { x, y, z }
    }

    /// Overwrite all three components.
    pub fn set(&mut self, x: i64, y: i64, z: i64)
        ensures
            final(self)@ == (V3 { x: x as int, y: y as int, z: z as int }),
    {
        self.x = x;
        self.y = y;
        self.z = z;
    }

    /// Overwrite the first component.
    pub fn x(&mut self, x: i64)
        ensures
            final(self)@ == (V3 { x: x as int, ..old(self)@ }),
    {
        self.x = x;
    }

    /// Overwrite the second component.
    pub fn y(&mut self, y: i64)
        ensures
            final(self)@ == (V3 { y: y as int, ..old(self)@ }),
    {
        self.y = y;
    }

    /// Overwrite the third component.
    pub fn z(&mut self, z: i64)
        ensures
            final(self)@ == (V3 { z: z as int, ..old(self)@ }),
    {
        self.z = z;
    }

    /// Component-wise sum.
    pub fn add(self, rhs: Point) -> (r: Point)
        requires
            v3_fits(v3_add(self@, rhs@)),
        ensures
            r@ == v3_add(self@, rhs@),
    {
        Point { x: self.x + rhs.x, y: self.y + rhs.y, z: self.z + rhs.z }
    }

    /// Component-wise difference.
    pub fn sub(self, rhs: Point) -> (r: Point)
        requires
            v3_fits(v3_sub(self@, rhs@)),
        ensures
            r@ == v3_sub(self@, rhs@),
    {
        Point { x: self.x - rhs.x, y: self.y - rhs.y, z: self.z - rhs.z }
    }

    /// Scale by a fixed-point scalar.
    pub fn mul(self, rhs: i64) -> (r: Point)
        requires
            v3_fits(v3_scale(self@, rhs as int)),
        ensures
            r@ == v3_scale(self@, rhs as int),
    {
        Point {
            x: crate::scalar::scalar_mul(self.x, rhs),
            y: crate::scalar::scalar_mul(self.y, rhs),
            z: crate::scalar::scalar_mul(self.z, rhs),
        }
    }

    /// Divide by a nonzero fixed-point scalar.
    pub fn div(self, rhs: i64) -> (r: Point)
        requires
            rhs != 0,
            v3_fits(v3_div(self@, rhs as int)),
        ensures
            r@ == v3_div(self@, rhs as int),
    {
        Point {
            x: crate::scalar::scalar_div(self.x, rhs),
            y: crate::scalar::scalar_div(self.y, rhs),
            z: crate::scalar::scalar_div(self.z, rhs),
        }
    }
}

} // verus!
