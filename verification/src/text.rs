//! Text rendering of scalars, vectors and mover state.
//!
//! A fixed-point scalar prints with exactly three decimal places, truncated
//! toward zero; a vector prints its components comma-separated; a mover
//! prints the report block of its location, velocity, acceleration and
//! force sum. Each renderer's contract gives the produced character
//! sequence exactly.

use crate::mover::{Mover, MoverView};
use crate::point::{Point, V3};
use crate::scalar::abs;
use vstd::prelude::*;

verus! {

/// The decimal digit character for `d`, which must lie between zero and
/// nine.
pub open spec fn digit_char(d: int) -> char {
    if d == 0 {
        '0'
    } else if d == 1 {
        '1'
    } else if d == 2 {
        '2'
    } else if d == 3 {
        '3'
    } else if d == 4 {
        '4'
    } else if d == 5 {
        '5'
    } else if d == 6 {
        '6'
    } else if d == 7 {
        '7'
    } else if d == 8 {
        '8'
    } else {
        '9'
    }
}

/// The decimal digits of a non-negative number, most significant first,
/// without leading zeros (a lone zero for zero).
pub open spec fn dec_digits(n: int) -> Seq<char>
    decreases n,
{
    if n < 10 {
        seq![digit_char(n)]
    } else {
        dec_digits(n / 10).push(digit_char(n % 10))
    }
}

/// Three zero-padded decimal digits of `m`, which must lie below a
/// thousand.
pub open spec fn pad3(m: int) -> Seq<char> {
    seq![digit_char(m / 100), digit_char((m / 10) % 10), digit_char(m % 10)]
}

/// A fixed-point scalar rendered with three decimal places: an optional
/// minus sign, the whole part, a point, and the first three fractional
/// digits, truncated toward zero.
pub open spec fn dec3(v: int) -> Seq<char> {
    let sign: Seq<char> = if v < 0 {
        seq!['-']
    } else {
        Seq::<char>::empty()
    };
    let mag = abs(v);
    sign + dec_digits(mag / 1_000_000) + seq!['.'] + pad3((mag % 1_000_000) / 1_000)
}

/// A vector rendered as its three components, comma-separated.
pub open spec fn point_text(v: V3) -> Seq<char> {
    dec3(v.x) + ", "@ + dec3(v.y) + ", "@ + dec3(v.z)
}

/// A mover's report block: location, velocity, acceleration and force sum,
/// one line each under a ruled header.
pub open spec fn mover_text(m: MoverView) -> Seq<char> {
    "----------------------------------------------\nLoc: "@ + point_text(m.location)
        + "\nVel: "@ + point_text(m.velocity) + "\nAcc: "@ + point_text(m.acceleration)
        + "\nFrc: "@ + point_text(m.sumf) + "\n"@
}

/// The single-character string for a decimal digit.
fn digit_str(d: u64) -> (r: &'static str)
    requires
        d < 10,
    ensures
        r@ == seq![digit_char(d as int)],
{
    proof {
        reveal_strlit("0");
        reveal_strlit("1");
        reveal_strlit("2");
        reveal_strlit("3");
        reveal_strlit("4");
        reveal_strlit("5");
        reveal_strlit("6");
        reveal_strlit("7");
        reveal_strlit("8");
        reveal_strlit("9");
    }
    if d == 0 {
        proof {
            assert("0"@ =~= seq![digit_char(d as int)]);
        }
        "0"
    } else if d == 1 {
        proof {
            assert("1"@ =~= seq![digit_char(d as int)]);
        }
        "1"
    } else if d == 2 {
        proof {
            assert("2"@ =~= seq![digit_char(d as int)]);
        }
        "2"
    } else if d == 3 {
        proof {
            assert("3"@ =~= seq![digit_char(d as int)]);
        }
        "3"
    } else if d == 4 {
        proof {
            assert("4"@ =~= seq![digit_char(d as int)]);
        }
        "4"
    } else if d == 5 {
        proof {
            assert("5"@ =~= seq![digit_char(d as int)]);
        }
        "5"
    } else if d == 6 {
        proof {
            assert("6"@ =~= seq![digit_char(d as int)]);
        }
        "6"
    } else if d == 7 {
        proof {
            assert("7"@ =~= seq![digit_char(d as int)]);
        }
        "7"
    } else if d == 8 {
        proof {
            assert("8"@ =~= seq![digit_char(d as int)]);
        }
        "8"
    } else {
        proof {
            assert("9"@ =~= seq![digit_char(d as int)]);
        }
        "9"
    }
}

/// Append the decimal digits of `n` to `s`.
fn push_digits(s: &mut String, n: u64)
    ensures
        final(s)@ == old(s)@ + dec_digits(n as int),
    decreases n,
{
    if n >= 10 {
        push_digits(s, n / 10);
        s.append(digit_str(n % 10));
        proof {
            assert(s@ =~= old(s)@ + dec_digits(n as int));
        }
    } else {
        s.append(digit_str(n));
        proof {
            assert(s@ =~= old(s)@ + dec_digits(n as int));
        }
    }
}

/// Render a fixed-point scalar with three decimal places, truncated toward
/// zero.
pub fn scalar_text(v: i64) -> (r: String)
    ensures
        r@ == dec3(v as int),
{
    let mut s = String::new();
    let mag: u64 = if v < 0 {
        s.append("-");
        (-(v as i128)) as u64
    } else {
        v as u64
    };
    proof {
        assert(mag as int == abs(v as int));
    }
    push_digits(&mut s, mag / 1_000_000);
    s.append(".");
    let milli = (mag % 1_000_000) / 1_000;
    s.append(digit_str(milli / 100));
    s.append(digit_str((milli / 10) % 10));
    s.append(digit_str(milli % 10));
    proof {
        reveal_strlit(".");
        reveal_strlit("-");
        assert("."@ =~= seq!['.']);
        assert("-"@ =~= seq!['-']);
        assert(s@ =~= dec3(v as int));
    }
    s
}

impl Point {
    /// The vector's text: each component with three decimal places,
    /// comma-separated.
    pub fn text(&self) -> (r: String)
        ensures
            r@ == point_text(self@),
    {
        let mut s = scalar_text(self.x);
        s.append(", ");
        let sy = scalar_text(self.y);
        s.append(sy.as_str());
        s.append(", ");
        let sz = scalar_text(self.z);
        s.append(sz.as_str());
        proof {
            assert(s@ =~= point_text(self@));
        }
        s
    }
}

impl Mover {
    /// The mover's report block: location, velocity, acceleration and force
    /// sum, one line each under a ruled header.
    pub fn report(&self) -> (r: String)
        ensures
            r@ == mover_text(self@),
    {
        let mut s = String::from_str("----------------------------------------------\nLoc: ");
        let loc = self.location().text();
        s.append(loc.as_str());
        s.append("\nVel: ");
        let vel = self.velocity().text();
        s.append(vel.as_str());
        s.append("\nAcc: ");
        let acc = self.acceleration().text();
        s.append(acc.as_str());
        s.append("\nFrc: ");
        let frc = self.sum().text();
        s.append(frc.as_str());
        s.append("\n");
        proof {
            assert(s@ =~= mover_text(self@));
        }
        s
    }
}

} // verus!
