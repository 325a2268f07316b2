//! Point masses ("movers") under accumulated named forces.
//!
//! A [`Mover`] owns kinematic state (location, velocity, acceleration), a
//! weight, and an ordered sequence of named force contributions together
//! with a cached running sum. The cache invariant — the cached sum equals
//! the component-wise sum of the entries present — is [`Mover::wf`]; every
//! constructor establishes it and every operation preserves it.
//!
//! The integration step [`Movable::tick`] recomputes acceleration from the
//! cached force sum and the weight, then advances velocity and location by
//! the exact recurrence of [`spec_tick`].

use crate::point::{v3_add, v3_div, v3_fits, v3_scale, v3_sub, v3_zero, Point, V3};
use crate::scalar::{abs, fxmul, lemma_fxdiv_bound, lemma_fxmul_bound, scalar_mul, HALF};
use vstd::prelude::*;

verus! {

/// One named force contribution.
#[derive(Debug, Clone)]
struct Force {
    id: String,
    f: Point,
}

/// The mathematical value of one force entry.
#[verifier::ext_equal]
pub ghost struct ForceView {
    pub id: Seq<char>,
    pub f: V3,
}

impl View for Force {
    type V = ForceView;

    closed spec fn view(&self) -> ForceView {
        ForceView { id: self.id@, f: self.f@ }
    }
}

/// The mathematical value of a [`Mover`].
#[verifier::ext_equal]
pub ghost struct MoverView {
    pub location: V3,
    pub weight: int,
    pub velocity: V3,
    pub acceleration: V3,
    pub forces: Seq<ForceView>,
    pub sumf: V3,
}

/// Component-wise sum of the vectors of a force sequence.
pub open spec fn sum_forces(s: Seq<ForceView>) -> V3
    decreases s.len(),
{
    if s.len() == 0 {
        v3_zero()
    } else {
        v3_add(sum_forces(s.drop_last()), s.last().f)
    }
}

/// Index of the first entry carrying `id`, or `-1` when none does.
pub open spec fn find_id(s: Seq<ForceView>, id: Seq<char>) -> int
    decreases s.len(),
{
    if s.len() == 0 {
        -1
    } else if s[0].id == id {
        0
    } else if find_id(s.subrange(1, s.len() as int), id) == -1 {
        -1
    } else {
        1 + find_id(s.subrange(1, s.len() as int), id)
    }
}

/// Appending a named force: the entry goes to the end of the sequence and
/// its vector is added to the cached sum.
pub open spec fn spec_add_force(m: MoverView, id: Seq<char>, f: V3) -> MoverView {
    MoverView {
        forces: m.forces.push(ForceView { id, f }),
        sumf: v3_add(m.sumf, f),
        ..m
    }
}

/// Removing a named force: the first entry carrying `id` leaves the sequence
/// and its vector is subtracted from the cached sum; when no entry carries
/// `id`, nothing changes.
pub open spec fn spec_drop_force(m: MoverView, id: Seq<char>) -> MoverView {
    let i = find_id(m.forces, id);
    if i == -1 {
        m
    } else {
        MoverView {
            forces: m.forces.remove(i),
            sumf: v3_sub(m.sumf, m.forces[i].f),
            ..m
        }
    }
}

/// Largest coordinate magnitude (in fixed-point units) admitted into one
/// integration step: ten thousand wholes.
pub const COORD_LIMIT: i64 = 10_000_000_000;

/// Largest time step (in fixed-point seconds) admitted into one integration
/// step: ten seconds.
pub const DT_LIMIT: i64 = 10_000_000;

/// Whether every component of `a` is small enough for one integration step.
pub open spec fn v3_small(a: V3) -> bool {
    &&& abs(a.x) <= COORD_LIMIT as int
    &&& abs(a.y) <= COORD_LIMIT as int
    &&& abs(a.z) <= COORD_LIMIT as int
}

/// What one integration step asks of a mover: a nonzero weight, a bounded
/// non-negative time step, and bounded location, velocity and force sum, so
/// that every intermediate value fits an `i64`.
pub open spec fn tick_ready(m: MoverView, dt: int) -> bool {
    &&& m.weight != 0
    &&& 0 <= dt <= DT_LIMIT as int
    &&& v3_small(m.location)
    &&& v3_small(m.velocity)
    &&& v3_small(m.sumf)
}

/// One integration step, exactly as executed:
/// acceleration is the cached force sum divided by the weight; velocity
/// becomes location plus velocity times `dt` plus acceleration times `dt`
/// squared times one half; location becomes acceleration times `dt` plus the
/// velocity just computed. Every product and quotient is fixed-point,
/// truncating toward zero.
pub open spec fn spec_tick(m: MoverView, dt: int) -> MoverView {
    let acc = v3_div(m.sumf, m.weight);
    let vel = v3_add(
        v3_add(m.location, v3_scale(m.velocity, dt)),
        v3_scale(v3_scale(acc, fxmul(dt, dt)), HALF as int),
    );
    let loc = v3_add(v3_scale(acc, dt), vel);
    MoverView { location: loc, velocity: vel, acceleration: acc, ..m }
}

/// Anything that advances under a time step.
pub trait Movable: Sized {
    /// When a step of size `dt` may be taken.
    spec fn tick_enabled(&self, dt: int) -> bool;

    /// How the state after a step relates to the state before it.
    spec fn tick_rel(pre: Self, post: Self, dt: int) -> bool;

    /// Advance by the time step `dt`, given in fixed-point seconds.
    fn tick(&mut self, dt: i64)
        requires
            old(self).tick_enabled(dt as int),
        ensures
            Self::tick_rel(*old(self), *final(self), dt as int),
    ;
}

/// A point mass: kinematic state, weight, and named forces with their
/// cached sum.
#[derive(Debug)]
pub struct Mover {
    location: Point,
    weight: i64,
    velocity: Point,
    acceleration: Point,
    force: Vec<Force>,
    sumf: Point,
}

impl View for Mover {
    type V = MoverView;

    closed spec fn view(&self) -> MoverView {
        MoverView {
            location: self.location@,
            weight: self.weight as int,
            velocity: self.velocity@,
            acceleration: self.acceleration@,
            forces: self.force@.map_values(|fr: Force| fr@),
            sumf: self.sumf@,
        }
    }
}

/// The cache invariant of a mover: the cached sum equals the component-wise
/// sum of the force entries present.
pub open spec fn view_wf(m: MoverView) -> bool {
    m.sumf == sum_forces(m.forces)
}

impl Mover {
    /// The cache invariant: the cached sum equals the component-wise sum of
    /// the force entries present.
    pub open spec fn wf(&self) -> bool {
        view_wf(self@)
    }

    /// A mover at rest at the origin, with zero weight and no forces.
    pub fn new() -> (r: Mover)
        ensures
            r@ == (MoverView {
                location: v3_zero(),
                weight: 0,
                velocity: v3_zero(),
                acceleration: v3_zero(),
                forces: Seq::<ForceView>::empty(),
                sumf: v3_zero(),
            }),
            r.wf(),
    {
        let r = Mover {
            location: Point::new(),
            weight: 0,
            velocity: Point::new(),
            acceleration: Point::new(),
            force: Vec::new(),
            sumf: Point::new(),
        };
        proof {
            assert(r@.forces =~= Seq::<ForceView>::empty());
            assert(r@ =~= MoverView {
                location: v3_zero(),
                weight: 0,
                velocity: v3_zero(),
                acceleration: v3_zero(),
                forces: Seq::<ForceView>::empty(),
                sumf: v3_zero(),
            });
        }
        r
    }

    /// Overwrite the location.
    pub fn set_location(&mut self, x: i64, y: i64, z: i64)
        ensures
            final(self)@ == (MoverView {
                location: V3 { x: x as int, y: y as int, z: z as int },
                ..old(self)@
            }),
            old(self).wf() ==> final(self).wf(),
    {
        self.location.set(x, y, z);
    }

    /// Overwrite the acceleration. The next tick recomputes acceleration
    /// from the force sum and the weight, so this only seeds the value read
    /// before ticking begins.
    pub fn set_accelaration(&mut self, x: i64, y: i64, z: i64)
        ensures
            final(self)@ == (MoverView {
                acceleration: V3 { x: x as int, y: y as int, z: z as int },
                ..old(self)@
            }),
            old(self).wf() ==> final(self).wf(),
    {
        self.acceleration.set(x, y, z);
    }

    /// Overwrite the velocity.
    pub fn set_velocity(&mut self, x: i64, y: i64, z: i64)
        ensures
            final(self)@ == (MoverView {
                velocity: V3 { x: x as int, y: y as int, z: z as int },
                ..old(self)@
            }),
            old(self).wf() ==> final(self).wf(),
    {
        self.velocity.set(x, y, z);
    }

    /// Overwrite the weight.
    pub fn set_weight(&mut self, w: i64)
        ensures
            final(self)@ == (MoverView { weight: w as int, ..old(self)@ }),
            old(self).wf() ==> final(self).wf(),
    {
        self.weight = w;
    }

    /// Append a named force and add its vector to the cached sum. An `id`
    /// may occur more than once; no uniqueness is checked.
    pub fn set_force(&mut self, id: String, x: i64, y: i64, z: i64)
        requires
            v3_fits(v3_add(old(self)@.sumf, V3 { x: x as int, y: y as int, z: z as int })),
        ensures
            final(self)@ == spec_add_force(
                old(self)@,
                id@,
                V3 { x: x as int, y: y as int, z: z as int },
            ),
            old(self).wf() ==> final(self).wf(),
    {
        let f = Point::with(x, y, z);
        let ghost pre = self@;
        self.force.push(Force { id, f });
        self.sumf = self.sumf.add(f);
        proof {
            assert(self@.forces =~= pre.forces.push(
                ForceView { id: id@, f: V3 { x: x as int, y: y as int, z: z as int } },
            ));
            assert(self@ =~= spec_add_force(
                pre,
                id@,
                V3 { x: x as int, y: y as int, z: z as int },
            ));
            if pre.sumf == sum_forces(pre.forces) {
                assert(self@.forces.drop_last() =~= pre.forces);
            }
        }
    }

    /// Remove the first force carrying `id`, subtracting its vector from the
    /// cached sum; when no entry carries `id`, this is a silent no-op.
    pub fn drop_force(&mut self, id: String)
        requires
            old(self).wf(),
            find_id(old(self)@.forces, id@) != -1 ==> v3_fits(
                v3_sub(
                    old(self)@.sumf,
                    old(self)@.forces[find_id(old(self)@.forces, id@)].f,
                ),
            ),
        ensures
            final(self)@ == spec_drop_force(old(self)@, id@),
            final(self).wf(),
    {
        let ghost pre = self@;
        let n = self.force.len();
        let mut i: usize = 0;
        while i < n
            invariant
                *self == *old(self),
                self@ == pre,
                n == self.force.len(),
                i <= n,
                forall|j: int| 0 <= j < i ==> pre.forces[j].id != id@,
                old(self).wf(),
                find_id(pre.forces, id@) != -1 ==> v3_fits(
                    v3_sub(pre.sumf, pre.forces[find_id(pre.forces, id@)].f),
                ),
            decreases n - i,
        {
            if self.force[i].id == id {
                proof {
                    lemma_find_id_hit(pre.forces, id@, i as int);
                    lemma_sum_remove(pre.forces, i as int);
                }
                self.sumf = self.sumf.sub(self.force[i].f);
                self.force.remove(i);
                proof {
                    assert(self@.forces =~= pre.forces.remove(i as int));
                    assert(self@ =~= spec_drop_force(pre, id@));
                }
                return ;
            }
            i += 1;
        }
        proof {
            lemma_find_id_miss(pre.forces, id@);
        }
    }

    /// Recompute the sum of the force entries present. Under the cache
    /// invariant this equals the cached sum.
    pub fn force_sum(&self) -> (r: Point)
        requires
            self.wf(),
        ensures
            r@ == sum_forces(self@.forces),
            r@ == self@.sumf,
    {
        let n = self.force.len();
        let mut x: i128 = 0;
        let mut y: i128 = 0;
        let mut z: i128 = 0;
        let mut i: usize = 0;
        while i < n
            invariant
                n == self.force.len(),
                i <= n,
                x == sum_forces(self@.forces.take(i as int)).x,
                y == sum_forces(self@.forces.take(i as int)).y,
                z == sum_forces(self@.forces.take(i as int)).z,
                -(i as int) * 0x8000_0000_0000_0000 <= x <= (i as int) * 0x7fff_ffff_ffff_ffff,
                -(i as int) * 0x8000_0000_0000_0000 <= y <= (i as int) * 0x7fff_ffff_ffff_ffff,
                -(i as int) * 0x8000_0000_0000_0000 <= z <= (i as int) * 0x7fff_ffff_ffff_ffff,
            decreases n - i,
        {
            proof {
                lemma_partial_sum_bounds(i as int, n as int);
                assert(self@.forces.take(i as int + 1).drop_last() =~= self@.forces.take(
                    i as int,
                ));
            }
            let fv = &self.force[i].f;
            x = x + (fv.x as i128);
            y = y + (fv.y as i128);
            z = z + (fv.z as i128);
            i += 1;
        }
        proof {
            assert(self@.forces.take(n as int) =~= self@.forces);
        }
        Point::with(x as i64, y as i64, z as i64)
    }

    /// The cached running sum of the forces present, read in constant time.
    /// Under the cache invariant it equals the component-wise sum of the
    /// entries present.
    pub fn sum(&self) -> (r: Point)
        ensures
            r@ == self@.sumf,
            self.wf() ==> r@ == sum_forces(self@.forces),
    {
        self.sumf
    }

    /// The current location.
    pub fn location(&self) -> (r: Point)
        ensures
            r@ == self@.location,
    {
        self.location
    }

    /// The current velocity.
    pub fn velocity(&self) -> (r: Point)
        ensures
            r@ == self@.velocity,
    {
        self.velocity
    }

    /// The current acceleration.
    pub fn acceleration(&self) -> (r: Point)
        ensures
            r@ == self@.acceleration,
    {
        self.acceleration
    }

    /// The current weight.
    pub fn weight(&self) -> (r: i64)
        ensures
            r as int == self@.weight,
    {
        self.weight
    }

    /// How many force entries are present.
    pub fn force_count(&self) -> (r: usize)
        ensures
            r as int == self@.forces.len(),
    {
        self.force.len()
    }
}

impl Movable for Mover {
    open spec fn tick_enabled(&self, dt: int) -> bool {
        tick_ready(self@, dt)
    }

    open spec fn tick_rel(pre: Self, post: Self, dt: int) -> bool {
        &&& post@ == spec_tick(pre@, dt)
        &&& pre.wf() ==> post.wf()
    }

    fn tick(&mut self, dt: i64) {
        let ghost pre = self@;
        proof {
            lemma_tick_fits(pre, dt as int);
        }
        self.acceleration = self.sumf.div(self.weight);
        self.velocity = self.location.add(self.velocity.mul(dt)).add(
            self.acceleration.mul(scalar_mul(dt, dt)).mul(HALF),
        );
        self.location = self.acceleration.mul(dt).add(self.velocity);
        proof {
            assert(self@.forces =~= pre.forces);
            assert(self@ =~= spec_tick(pre, dt as int));
        }
    }
}

/// Every intermediate of one integration step on a ready mover fits an
/// `i64`, with room to spare.
proof fn lemma_tick_fits(m: MoverView, dt: int)
    requires
        tick_ready(m, dt),
    ensures
        ({
            let acc = v3_div(m.sumf, m.weight);
            let dt2 = fxmul(dt, dt);
            &&& v3_fits(acc)
            &&& abs(acc.x) <= 0x2386F26FC10000 && abs(acc.y) <= 0x2386F26FC10000 && abs(acc.z)
                <= 0x2386F26FC10000
            &&& abs(dt2) <= 100_000_000
            &&& i64::MIN <= dt2 <= i64::MAX
            &&& v3_fits(v3_scale(m.velocity, dt))
            &&& v3_fits(v3_scale(acc, dt2))
            &&& v3_fits(v3_scale(v3_scale(acc, dt2), HALF as int))
            &&& v3_fits(v3_add(m.location, v3_scale(m.velocity, dt)))
            &&& v3_fits(
                v3_add(
                    v3_add(m.location, v3_scale(m.velocity, dt)),
                    v3_scale(v3_scale(acc, dt2), HALF as int),
                ),
            )
            &&& v3_fits(v3_scale(acc, dt))
            &&& v3_fits(
                v3_add(
                    v3_scale(acc, dt),
                    v3_add(
                        v3_add(m.location, v3_scale(m.velocity, dt)),
                        v3_scale(v3_scale(acc, dt2), HALF as int),
                    ),
                ),
            )
        }),
{
    let acc = v3_div(m.sumf, m.weight);
    let dt2 = fxmul(dt, dt);
    let accmax = 10_000_000_000 * 1_000_000int;
    lemma_fxdiv_bound(m.sumf.x, m.weight, COORD_LIMIT as int);
    lemma_fxdiv_bound(m.sumf.y, m.weight, COORD_LIMIT as int);
    lemma_fxdiv_bound(m.sumf.z, m.weight, COORD_LIMIT as int);
    assert(abs(acc.x) <= accmax && abs(acc.y) <= accmax && abs(acc.z) <= accmax);
    lemma_fxmul_bound(dt, dt, DT_LIMIT as int, DT_LIMIT as int);
    lemma_fxmul_bound(m.velocity.x, dt, COORD_LIMIT as int, DT_LIMIT as int);
    lemma_fxmul_bound(m.velocity.y, dt, COORD_LIMIT as int, DT_LIMIT as int);
    lemma_fxmul_bound(m.velocity.z, dt, COORD_LIMIT as int, DT_LIMIT as int);
    lemma_fxmul_bound(acc.x, dt2, accmax, 100_000_000);
    lemma_fxmul_bound(acc.y, dt2, accmax, 100_000_000);
    lemma_fxmul_bound(acc.z, dt2, accmax, 100_000_000);
    let accdt2max = accmax * 100_000_000 / 1_000_000;
    lemma_fxmul_bound(v3_scale(acc, dt2).x, HALF as int, accdt2max, HALF as int);
    lemma_fxmul_bound(v3_scale(acc, dt2).y, HALF as int, accdt2max, HALF as int);
    lemma_fxmul_bound(v3_scale(acc, dt2).z, HALF as int, accdt2max, HALF as int);
    lemma_fxmul_bound(acc.x, dt, accmax, DT_LIMIT as int);
    lemma_fxmul_bound(acc.y, dt, accmax, DT_LIMIT as int);
    lemma_fxmul_bound(acc.z, dt, accmax, DT_LIMIT as int);
}

/// A partial sum of at most `n` entries, each an `i64`, stays inside the
/// `i128` range while one more entry is added.
proof fn lemma_partial_sum_bounds(i: int, n: int)
    requires
        0 <= i < n,
        n <= usize::MAX,
    ensures
        (i + 1) * 0x8000_0000_0000_0000 <= 0x8000_0000_0000_0000_0000_0000_0000_0000,
        (i + 1) * 0x7fff_ffff_ffff_ffff < 0x8000_0000_0000_0000_0000_0000_0000_0000,
        (i + 1) * 0x8000_0000_0000_0000 == i * 0x8000_0000_0000_0000 + 0x8000_0000_0000_0000,
        (i + 1) * 0x7fff_ffff_ffff_ffff == i * 0x7fff_ffff_ffff_ffff + 0x7fff_ffff_ffff_ffff,
{
    assert((i + 1) * 0x8000_0000_0000_0000 == i * 0x8000_0000_0000_0000 + 0x8000_0000_0000_0000)
        by (nonlinear_arith);
    assert((i + 1) * 0x7fff_ffff_ffff_ffff == i * 0x7fff_ffff_ffff_ffff + 0x7fff_ffff_ffff_ffff)
        by (nonlinear_arith);
    assert((i + 1) * 0x8000_0000_0000_0000 <= 0x8000_0000_0000_0000_0000_0000_0000_0000
        && (i + 1) * 0x7fff_ffff_ffff_ffff < 0x8000_0000_0000_0000_0000_0000_0000_0000)
        by (nonlinear_arith)
        requires
            0 <= i,
            i + 1 <= 0x1_0000_0000_0000_0000,
    ;
}

/// Removing the entry at `i` takes exactly its vector out of the sum.
pub proof fn lemma_sum_remove(s: Seq<ForceView>, i: int)
    requires
        0 <= i < s.len(),
    ensures
        sum_forces(s.remove(i)) == v3_sub(sum_forces(s), s[i].f),
    decreases s.len(),
{
    if i == s.len() - 1 {
        assert(s.remove(i) =~= s.drop_last());
    } else {
        lemma_sum_remove(s.drop_last(), i);
        assert(s.remove(i).drop_last() =~= s.drop_last().remove(i));
        assert(s.remove(i).last() == s.last());
        assert(s.drop_last()[i] == s[i]);
    }
}

/// When the scan has ruled out every entry before `i` and entry `i`
/// matches, `i` is the first match.
pub proof fn lemma_find_id_hit(s: Seq<ForceView>, id: Seq<char>, i: int)
    requires
        0 <= i < s.len(),
        s[i].id == id,
        forall|j: int| 0 <= j < i ==> s[j].id != id,
    ensures
        find_id(s, id) == i,
    decreases i,
{
    if i == 0 {
    } else {
        lemma_find_id_hit(s.subrange(1, s.len() as int), id, i - 1);
    }
}

/// When the scan has ruled out every entry, there is no match.
pub proof fn lemma_find_id_miss(s: Seq<ForceView>, id: Seq<char>)
    requires
        forall|j: int| 0 <= j < s.len() ==> s[j].id != id,
    ensures
        find_id(s, id) == -1,
    decreases s.len(),
{
    if s.len() > 0 {
        lemma_find_id_miss(s.subrange(1, s.len() as int), id);
    }
}

/// What `find_id` finds is a match, lies in range, and is the first.
pub proof fn lemma_find_id_props(s: Seq<ForceView>, id: Seq<char>)
    ensures
        find_id(s, id) != -1 ==> {
            let i = find_id(s, id);
            &&& 0 <= i < s.len()
            &&& s[i].id == id
            &&& forall|j: int| 0 <= j < i ==> s[j].id != id
        },
        find_id(s, id) == -1 ==> forall|j: int| 0 <= j < s.len() ==> s[j].id != id,
    decreases s.len(),
{
    if s.len() > 0 {
        let t = s.subrange(1, s.len() as int);
        lemma_find_id_props(t, id);
        if s[0].id == id {
        } else if find_id(t, id) == -1 {
            assert forall|j: int| 0 <= j < s.len() implies s[j].id != id by {
                if j >= 1 {
                    assert(t[j - 1] == s[j]);
                }
            }
        } else {
            let i = 1 + find_id(t, id);
            assert(t[i - 1] == s[i]);
            assert forall|j: int| 0 <= j < i implies s[j].id != id by {
                if j >= 1 {
                    assert(t[j - 1] == s[j]);
                }
            }
        }
    }
}

} // verus!
