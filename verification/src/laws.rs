//! Proved algebraic facts about the vector operations and the force
//! bookkeeping.
//!
//! Addition is exact, so it is commutative and associative outright. The
//! fixed-point product truncates, so the distributive law and the
//! scale-then-divide cancellation are stated where no truncation happens:
//! when each product of a component with the scalar is an exact multiple of
//! [`SCALE`]. Outside that carve-out they can fail — scaling `(1, 0, 0)` by
//! one half truncates the half unit away, and no later operation brings it
//! back. Division by a scalar with an exact reciprocal (one dividing the
//! square of [`SCALE`]) is scaling by that reciprocal, for every vector.
//!
//! The force-bookkeeping laws close the loop on the cached sum: both
//! operations preserve the cache invariant, removal of an absent name is a
//! no-op, removing a unique name twice removes it once, and adding a force
//! under a fresh name then removing that name restores the mover exactly.

use crate::mover::{
    find_id, lemma_find_id_hit, lemma_find_id_props, spec_add_force, spec_drop_force, view_wf,
    ForceView, MoverView,
};
use crate::point::{v3_add, v3_div, v3_scale, V3};
use crate::scalar::{fxdiv, fxmul, lemma_tdiv_common_factor, lemma_tdiv_exact, tdiv, SCALE};
use vstd::arithmetic::div_mod::lemma_fundamental_div_mod;
use vstd::prelude::*;

verus! {

/// Vector addition is commutative.
pub proof fn lemma_add_commutative(a: V3, b: V3)
    ensures
        v3_add(a, b) == v3_add(b, a),
{
}

/// Vector addition is associative.
pub proof fn lemma_add_associative(a: V3, b: V3, c: V3)
    ensures
        v3_add(v3_add(a, b), c) == v3_add(a, v3_add(b, c)),
{
}

/// The products of `a` with `s` leave no fixed-point remainder.
pub open spec fn scales_exactly(a: V3, s: int) -> bool {
    &&& (a.x * s) % (SCALE as int) == 0
    &&& (a.y * s) % (SCALE as int) == 0
    &&& (a.z * s) % (SCALE as int) == 0
}

/// An exact fixed-point product is the plain quotient of the integer
/// product by [`SCALE`].
proof fn lemma_fxmul_exact(a: int, s: int)
    requires
        (a * s) % (SCALE as int) == 0,
    ensures
        fxmul(a, s) == a * s / (SCALE as int),
        fxmul(a, s) * (SCALE as int) == a * s,
{
    let k = SCALE as int;
    let q = a * s / k;
    lemma_fundamental_div_mod(a * s, k);
    assert(a * s == q * k) by (nonlinear_arith)
        requires
            a * s == k * q + (a * s) % k,
            (a * s) % k == 0,
    ;
    lemma_tdiv_exact(q, k);
}

/// Scaling distributes over addition whenever both scalings are exact.
pub proof fn lemma_scale_distributes_over_add(a: V3, b: V3, s: int)
    requires
        scales_exactly(a, s),
        scales_exactly(b, s),
    ensures
        v3_scale(v3_add(a, b), s) == v3_add(v3_scale(a, s), v3_scale(b, s)),
{
    lemma_fxmul_distributes(a.x, b.x, s);
    lemma_fxmul_distributes(a.y, b.y, s);
    lemma_fxmul_distributes(a.z, b.z, s);
}

/// The scalar core of the distributive law.
proof fn lemma_fxmul_distributes(a: int, b: int, s: int)
    requires
        (a * s) % (SCALE as int) == 0,
        (b * s) % (SCALE as int) == 0,
    ensures
        fxmul(a + b, s) == fxmul(a, s) + fxmul(b, s),
{
    let k = SCALE as int;
    lemma_fxmul_exact(a, s);
    lemma_fxmul_exact(b, s);
    assert((a + b) * s == fxmul(a, s) * k + fxmul(b, s) * k) by (nonlinear_arith)
        requires
            fxmul(a, s) * k == a * s,
            fxmul(b, s) * k == b * s,
    ;
    assert((a + b) * s == (fxmul(a, s) + fxmul(b, s)) * k) by (nonlinear_arith)
        requires
            (a + b) * s == fxmul(a, s) * k + fxmul(b, s) * k,
    ;
    lemma_tdiv_exact(fxmul(a, s) + fxmul(b, s), k);
}

/// Dividing by a nonzero scalar undoes an exact scaling by it.
pub proof fn lemma_div_inverts_scale(a: V3, s: int)
    requires
        s != 0,
        scales_exactly(a, s),
    ensures
        v3_div(v3_scale(a, s), s) == a,
{
    lemma_fxdiv_inverts_fxmul(a.x, s);
    lemma_fxdiv_inverts_fxmul(a.y, s);
    lemma_fxdiv_inverts_fxmul(a.z, s);
}

/// The scalar core of the cancellation law.
proof fn lemma_fxdiv_inverts_fxmul(a: int, s: int)
    requires
        s != 0,
        (a * s) % (SCALE as int) == 0,
    ensures
        fxdiv(fxmul(a, s), s) == a,
{
    let k = SCALE as int;
    lemma_fxmul_exact(a, s);
    assert(fxmul(a, s) * k == a * s);
    assert(fxdiv(fxmul(a, s), s) == tdiv(a * s, s));
    assert(tdiv(a * s, s) == a) by {
        lemma_tdiv_exact(a, s);
    }
}

/// The fixed-point reciprocal of a scalar.
pub open spec fn recip(s: int) -> int {
    fxdiv(SCALE as int, s)
}

/// A scalar has an exact fixed-point reciprocal when it divides the square
/// of [`SCALE`]: two, four, half, a tenth — but not three.
pub open spec fn has_exact_recip(s: int) -> bool {
    &&& s != 0
    &&& ((SCALE as int) * (SCALE as int)) % s == 0
}

/// Dividing by a scalar with an exact reciprocal is scaling by that
/// reciprocal.
pub proof fn lemma_div_is_scale_by_recip(a: V3, s: int)
    requires
        has_exact_recip(s),
    ensures
        v3_div(a, s) == v3_scale(a, recip(s)),
{
    lemma_fx_recip(a.x, s);
    lemma_fx_recip(a.y, s);
    lemma_fx_recip(a.z, s);
}

/// The scalar core of the reciprocal law.
proof fn lemma_fx_recip(x: int, s: int)
    requires
        has_exact_recip(s),
    ensures
        fxmul(x, recip(s)) == fxdiv(x, s),
{
    let k = SCALE as int;
    let e = (k * k) / s;
    lemma_fundamental_div_mod(k * k, s);
    assert(k * k == e * s) by (nonlinear_arith)
        requires
            k * k == s * e + (k * k) % s,
            (k * k) % s == 0,
    ;
    assert(recip(s) == e) by {
        lemma_tdiv_exact(e, s);
    }
    if s > 0 {
        lemma_tdiv_common_factor(x * e, k, s);
        assert(x * e * s == x * k * k && x * k * k == (x * k) * k && k * s == s * k)
            by (nonlinear_arith)
            requires
                e * s == k * k,
        ;
        lemma_tdiv_common_factor(x * k, s, k);
    } else {
        lemma_tdiv_common_factor(x * e, k, -s);
        lemma_tdiv_common_factor(x * k, s, k);
        assert(x * e * (-s) == -(x * k * k) && x * k * k == (x * k) * k && k * (-s) == -(s * k)
            && s * k != 0) by (nonlinear_arith)
            requires
                e * s == k * k,
                s < 0,
                k > 0,
        ;
        lemma_tdiv_negate((x * k) * k, s * k);
    }
}

/// Negating dividend and divisor together leaves a truncating quotient
/// unchanged.
proof fn lemma_tdiv_negate(x: int, y: int)
    requires
        y != 0,
    ensures
        tdiv(-x, -y) == tdiv(x, y),
{
    crate::scalar::lemma_tdiv_abs(x, y);
    crate::scalar::lemma_tdiv_abs(-x, -y);
    vstd::arithmetic::div_mod::lemma_div_of0(crate::scalar::abs(y));
}

/// Adding a force under a fresh name and at once removing that name puts
/// the mover back exactly where it was: the entry leaves the sequence and
/// the cached sum returns to its old value. When the name is already
/// present this fails — removal takes the *first* match, which is the old
/// entry, not the new one.
pub proof fn lemma_add_then_drop(m: MoverView, id: Seq<char>, f: V3)
    requires
        find_id(m.forces, id) == -1,
    ensures
        spec_drop_force(spec_add_force(m, id, f), id) == m,
{
    let added = spec_add_force(m, id, f);
    let n = m.forces.len() as int;
    lemma_find_id_props(m.forces, id);
    assert forall|j: int| 0 <= j < n implies added.forces[j].id != id by {
        assert(added.forces[j] == m.forces[j]);
    }
    lemma_find_id_hit(added.forces, id, n);
    assert(added.forces.remove(n) =~= m.forces);
    assert(spec_drop_force(added, id) =~= m);
}

/// Removing an absent name changes nothing: the silent no-op, stated.
pub proof fn lemma_drop_absent(m: MoverView, id: Seq<char>)
    requires
        find_id(m.forces, id) == -1,
    ensures
        spec_drop_force(m, id) == m,
{
}

/// When a name occurs at most once, removing it twice is the same as
/// removing it once: the second removal finds nothing.
pub proof fn lemma_drop_twice(m: MoverView, id: Seq<char>)
    requires
        forall|i: int, j: int|
            0 <= i < m.forces.len() && 0 <= j < m.forces.len() && m.forces[i].id == id
                && m.forces[j].id == id ==> i == j,
    ensures
        spec_drop_force(spec_drop_force(m, id), id) == spec_drop_force(m, id),
{
    let i = find_id(m.forces, id);
    lemma_find_id_props(m.forces, id);
    if i != -1 {
        let dropped = spec_drop_force(m, id);
        assert forall|j: int| 0 <= j < dropped.forces.len() implies dropped.forces[j].id
            != id by {
            if j < i {
                assert(dropped.forces[j] == m.forces[j]);
            } else {
                assert(dropped.forces[j] == m.forces[j + 1]);
            }
        }
        crate::mover::lemma_find_id_miss(dropped.forces, id);
    }
}

/// The cache invariant survives appending a force.
pub proof fn lemma_wf_add(m: MoverView, id: Seq<char>, f: V3)
    requires
        view_wf(m),
    ensures
        view_wf(spec_add_force(m, id, f)),
{
    let added = spec_add_force(m, id, f);
    assert(added.forces.drop_last() =~= m.forces);
}

/// The cache invariant survives removing a force.
pub proof fn lemma_wf_drop(m: MoverView, id: Seq<char>)
    requires
        view_wf(m),
    ensures
        view_wf(spec_drop_force(m, id)),
{
    let i = find_id(m.forces, id);
    lemma_find_id_props(m.forces, id);
    if i != -1 {
        crate::mover::lemma_sum_remove(m.forces, i);
    }
}

} // verus!
