//! The tick scheduler.
//!
//! A [`Timer`] owns a collection of movers and an admission gate: a tick may
//! only be applied once the sampled clock has advanced by at least the
//! minimum interval since the last tick. The caller samples its monotonic
//! clock (in milliseconds) and hands the reading to [`Timer::step`]; when
//! the admission rule admits it, every registered mover advances by one tick whose
//! time step is the *measured* elapsed time, not the minimum interval, and
//! the last-tick instant moves to the sampling instant. Otherwise nothing
//! changes. The surrounding loop — sampling the clock, spinning, reporting —
//! stays with the caller.

use crate::mover::{
    spec_tick, tick_ready, view_wf, Movable, Mover, MoverView, COORD_LIMIT, DT_LIMIT,
};
use vstd::prelude::*;

verus! {

/// Fixed-point seconds in one millisecond.
pub const UNITS_PER_MS: i64 = 1_000;

/// Largest elapsed time, in milliseconds, that one tick can absorb.
pub const ELAPSED_LIMIT_MS: u64 = 10_000;

/// The mathematical value of a [`Timer`]. Instants and the minimum interval
/// count milliseconds on the caller's monotonic clock.
#[verifier::ext_equal]
pub ghost struct TimerView {
    pub min_duration: int,
    pub start: int,
    pub last_instant: int,
    pub movers: Seq<MoverView>,
    pub print_location: bool,
    pub print_dt: bool,
}

/// The time step, in fixed-point seconds, carried by a tick after `elapsed`
/// milliseconds.
pub open spec fn dt_of(elapsed_ms: int) -> int {
    elapsed_ms * (UNITS_PER_MS as int)
}

/// What one scheduling step asks: the clock has not run backwards, and if
/// a tick would be admitted, the elapsed time is bounded and every mover
/// is ready for a step of the measured size.
pub open spec fn step_enabled(t: TimerView, now: int) -> bool {
    &&& t.last_instant <= now
    &&& now - t.last_instant >= t.min_duration ==> {
        &&& now - t.last_instant <= ELAPSED_LIMIT_MS as int
        &&& forall|i: int|
            0 <= i < t.movers.len() ==> tick_ready(
                #[trigger] t.movers[i],
                dt_of(now - t.last_instant),
            )
    }
}

/// One scheduling step: when the elapsed time since the last tick is below
/// the minimum interval, nothing changes; otherwise the last-tick instant
/// advances to the sampling instant and every mover ticks once with the
/// measured elapsed time as its time step.
pub open spec fn spec_step(t: TimerView, now: int) -> TimerView {
    let elapsed = now - t.last_instant;
    if elapsed < t.min_duration {
        t
    } else {
        TimerView {
            last_instant: now,
            movers: t.movers.map_values(|m: MoverView| spec_tick(m, dt_of(elapsed))),
            ..t
        }
    }
}

/// The scheduler: a minimum tick interval, the start and last-tick instants,
/// the registered movers, and two reporting flags read by the caller.
pub struct Timer {
    min_duration: u64,
    start: u64,
    last_instant: u64,
    movers: Vec<Mover>,
    print_location: bool,
    print_dt: bool,
}

impl View for Timer {
    type V = TimerView;

    closed spec fn view(&self) -> TimerView {
        TimerView {
            min_duration: self.min_duration as int,
            start: self.start as int,
            last_instant: self.last_instant as int,
            movers: self.movers@.map_values(|m: Mover| m@),
            print_location: self.print_location,
            print_dt: self.print_dt,
        }
    }
}

impl Timer {
    /// Every registered mover satisfies its cache invariant.
    pub open spec fn wf(&self) -> bool {
        forall|i: int| 0 <= i < self@.movers.len() ==> view_wf(#[trigger] self@.movers[i])
    }

    /// A scheduler with the default seven-millisecond minimum interval, no
    /// movers, both reports enabled, and instants at zero until
    /// [`Timer::begin`] seeds them from the caller's clock.
    pub fn new() -> (r: Timer)
        ensures
            r@ == (TimerView {
                min_duration: 7,
                start: 0,
                last_instant: 0,
                movers: Seq::<MoverView>::empty(),
                print_location: true,
                print_dt: true,
            }),
            r.wf(),
    {
        let r = Timer {
            min_duration: 7,
            start: 0,
            last_instant: 0,
            movers: Vec::new(),
            print_location: true,
            print_dt: true,
        };
        proof {
            assert(r@.movers =~= Seq::<MoverView>::empty());
            assert(r@ =~= TimerView {
                min_duration: 7,
                start: 0,
                last_instant: 0,
                movers: Seq::<MoverView>::empty(),
                print_location: true,
                print_dt: true,
            });
        }
        r
    }

    /// Set the minimum tick interval, in milliseconds.
    pub fn set_min_duration(&mut self, dur: u64)
        ensures
            final(self)@ == (TimerView { min_duration: dur as int, ..old(self)@ }),
            old(self).wf() ==> final(self).wf(),
    {
        self.min_duration = dur;
    }

    /// Register a mover; it will tick, in registration order, on every
    /// admitted step.
    pub fn register_mover(&mut self, mov: Mover)
        requires
            mov.wf(),
        ensures
            final(self)@ == (TimerView {
                movers: old(self)@.movers.push(mov@),
                ..old(self)@
            }),
            old(self).wf() ==> final(self).wf(),
    {
        let ghost pre = self@;
        self.movers.push(mov);
        proof {
            assert(self@.movers =~= pre.movers.push(mov@));
            assert(self@ =~= TimerView { movers: pre.movers.push(mov@), ..pre });
        }
    }

    /// Seed the start and last-tick instants from the caller's clock, as the
    /// first act of a run.
    pub fn begin(&mut self, now: u64)
        ensures
            final(self)@ == (TimerView {
                start: now as int,
                last_instant: now as int,
                ..old(self)@
            }),
            old(self).wf() ==> final(self).wf(),
    {
        self.last_instant = now;
        self.start = now;
    }

    /// One scheduling step against the sampled instant `now`: apply the
    /// admission gate and, when it admits, tick every mover with the
    /// measured elapsed time. Returns whether a tick was applied.
    pub fn step(&mut self, now: u64) -> (ticked: bool)
        requires
            old(self).wf(),
            step_enabled(old(self)@, now as int),
        ensures
            final(self)@ == spec_step(old(self)@, now as int),
            final(self).wf(),
            ticked == (now - old(self)@.last_instant >= old(self)@.min_duration),
    {
        let ghost pre = self@;
        let elapsed = now - self.last_instant;
        if elapsed >= self.min_duration {
            self.last_instant = now;
            let dt = (elapsed * 1000) as i64;
            assert(dt as int == dt_of(elapsed as int));
            let ghost goal = pre.movers.map_values(
                |m: MoverView| spec_tick(m, dt_of(elapsed as int)),
            );
            proof {
                assert forall|i: int| 0 <= i < self.movers@.len() implies view_wf(
                    #[trigger] self.movers@[i]@,
                ) && tick_ready(self.movers@[i]@, dt as int) by {
                    assert(pre.movers[i] == self.movers@[i]@);
                }
            }
            let mut moved: Vec<Mover> = Vec::new();
            while self.movers.len() > 0
                invariant
                    dt as int == dt_of(elapsed as int),
                    elapsed as int == now as int - pre.last_instant,
                    pre.min_duration <= elapsed as int,
                    self@.min_duration == pre.min_duration,
                    self@.start == pre.start,
                    self@.last_instant == now as int,
                    self@.print_location == pre.print_location,
                    self@.print_dt == pre.print_dt,
                    moved@.len() + self.movers@.len() == pre.movers.len(),
                    goal == pre.movers.map_values(
                        |m: MoverView| spec_tick(m, dt_of(elapsed as int)),
                    ),
                    forall|i: int|
                        0 <= i < self.movers@.len() ==> #[trigger] self.movers@[i]@
                            == pre.movers[moved@.len() + i],
                    forall|i: int|
                        0 <= i < self.movers@.len() ==> view_wf(#[trigger] self.movers@[i]@),
                    forall|i: int|
                        0 <= i < self.movers@.len() ==> tick_ready(
                            #[trigger] self.movers@[i]@,
                            dt as int,
                        ),
                    forall|i: int|
                        0 <= i < moved@.len() ==> #[trigger] moved@[i]@ == goal[i],
                    forall|i: int| 0 <= i < moved@.len() ==> view_wf(#[trigger] moved@[i]@),
                decreases self.movers@.len(),
            {
                let ghost k = moved@.len();
                let mut m = self.movers.remove(0);
                m.tick(dt);
                moved.push(m);
                proof {
                    assert(moved@[k as int]@ == goal[k as int]);
                }
            }
            self.movers = moved;
            proof {
                assert(self@.movers =~= goal);
                assert(self@ =~= spec_step(pre, now as int));
            }
            true
        } else {
            proof {
                assert(self@ =~= spec_step(pre, now as int));
            }
            false
        }
    }

    /// A checked scheduling step: test every condition [`Timer::step`] asks
    /// for and apply the step only when all hold. Returns `None`, changing
    /// nothing, when the sampled instant lies before the last tick, or when
    /// a tick would be admitted but the elapsed time or some mover is out of
    /// bounds; otherwise returns whether a tick was applied.
    pub fn try_step(&mut self, now: u64) -> (r: Option<bool>)
        requires
            old(self).wf(),
        ensures
            match r {
                Some(ticked) => {
                    &&& step_enabled(old(self)@, now as int)
                    &&& final(self)@ == spec_step(old(self)@, now as int)
                    &&& final(self).wf()
                    &&& ticked == (now - old(self)@.last_instant >= old(self)@.min_duration)
                },
                None => {
                    &&& *final(self) == *old(self)
                    &&& !step_enabled(old(self)@, now as int)
                },
            },
    {
        if now < self.last_instant {
            return None;
        }
        let elapsed = now - self.last_instant;
        if elapsed >= self.min_duration {
            if elapsed > ELAPSED_LIMIT_MS {
                return None;
            }
            let dt = (elapsed * 1000) as i64;
            let n = self.movers.len();
            let mut i: usize = 0;
            while i < n
                invariant
                    *self == *old(self),
                    n == self.movers@.len(),
                    i <= n,
                    0 <= dt as int <= DT_LIMIT as int,
                    dt as int == dt_of(elapsed as int),
                    elapsed as int == now as int - self@.last_instant,
                    self@.min_duration <= elapsed as int,
                    elapsed <= ELAPSED_LIMIT_MS,
                    forall|j: int|
                        0 <= j < i ==> tick_ready(#[trigger] self@.movers[j], dt as int),
                decreases n - i,
            {
                let m = &self.movers[i];
                proof {
                    assert(self@.movers[i as int] == self.movers@[i as int]@);
                }
                if m.weight() == 0 || !point_small(m.location()) || !point_small(m.velocity())
                    || !point_small(m.sum()) {
                    proof {
                        assert(!tick_ready(self@.movers[i as int], dt_of(elapsed as int)));
                    }
                    return None;
                }
                i += 1;
            }
        }
        Some(self.step(now))
    }

    /// The minimum tick interval, in milliseconds.
    pub fn min_duration(&self) -> (r: u64)
        ensures
            r as int == self@.min_duration,
    {
        self.min_duration
    }

    /// The instant, in milliseconds, at which the run began.
    pub fn start(&self) -> (r: u64)
        ensures
            r as int == self@.start,
    {
        self.start
    }

    /// The instant, in milliseconds, of the last admitted tick.
    pub fn last_instant(&self) -> (r: u64)
        ensures
            r as int == self@.last_instant,
    {
        self.last_instant
    }

    /// How many movers are registered.
    pub fn mover_count(&self) -> (r: usize)
        ensures
            r as int == self@.movers.len(),
    {
        self.movers.len()
    }

    /// The mover at the given registration index.
    pub fn mover_at(&self, i: usize) -> (r: &Mover)
        requires
            i < self@.movers.len(),
        ensures
            r@ == self@.movers[i as int],
    {
        &self.movers[i]
    }

    /// Whether the caller should report each mover's state after a tick.
    pub fn print_location(&self) -> (r: bool)
        ensures
            r == self@.print_location,
    {
        self.print_location
    }

    /// Whether the caller should report each tick's time step.
    pub fn print_dt(&self) -> (r: bool)
        ensures
            r == self@.print_dt,
    {
        self.print_dt
    }
}

/// Whether every component of a point is small enough for one integration
/// step.
fn point_small(p: crate::point::Point) -> (r: bool)
    ensures
        r == crate::mover::v3_small(p@),
{
    -COORD_LIMIT <= p.x && p.x <= COORD_LIMIT && -COORD_LIMIT <= p.y && p.y <= COORD_LIMIT
        && -COORD_LIMIT <= p.z && p.z <= COORD_LIMIT
}

} // verus!
