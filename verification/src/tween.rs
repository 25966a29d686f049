//! Per-unit animation state and the tick pipeline.
//!
//! A [`TweenWorld`] is an arena of animated units: parallel tables, keyed by
//! a unit index, each holding one per-unit piece of state — the timer, the
//! chosen easing curve, the published progress, and the derived
//! interpolation value. [`TweenWorld::tick`] runs the three library-owned
//! stages of a scheduling tick in their mandatory order; external appliers
//! then read the values through [`TweenWorld::interpolation_value`].

use vstd::prelude::*;

verus! {

use crate::interpolation::Interpolation;
use crate::tween_timer::{TweenTimer, MAX_TIME};

/// The normalized progress a timer currently publishes for its unit:
/// `None` means the unit is outside any active playback window and must
/// not be sampled.
#[derive(Debug, Clone, Copy, PartialEq, Eq, Structural)]
pub struct TweenProgress {
    /// Current normalized position in `0 ..= SCALE` fixed-point units.
    pub now_percentage: Option<i64>,
}

/// The curve-sampled scalar ready to be applied to a target property.
#[derive(Debug, Clone, Copy, PartialEq, Eq, Structural)]
pub struct TweenInterpolationValue(pub i64);

/// The one-shot notification that a unit's timer completed this tick.
#[derive(Debug, Clone, Copy, PartialEq, Eq, Structural)]
pub struct TweenerEnded {
    /// The unit whose timeline just ended.
    pub unit: usize,
}

/// The progress a given timer state publishes.
pub open spec fn progress_of_timer(t: TweenTimer) -> TweenProgress {
    TweenProgress {
        now_percentage: match TweenTimer::spec_progress(t) {
            Some(v) => Some(v as i64),
            None => None,
        },
    }
}

/// The arena of animated units: one record per unit, stored as parallel
/// tables so each stage is one pass over the population.
pub struct TweenWorld<I> {
    /// The per-unit timer, if the unit has a timeline.
    pub timers: Vec<Option<TweenTimer>>,
    /// The per-unit easing curve.
    pub curves: Vec<Option<I>>,
    /// The per-unit published progress.
    pub progresses: Vec<Option<TweenProgress>>,
    /// The per-unit sampled interpolation value.
    pub values: Vec<Option<TweenInterpolationValue>>,
    /// Set when the unit's curve changed since it was last sampled.
    pub curve_dirty: Vec<bool>,
    /// Set when the unit's progress changed since it was last sampled.
    pub progress_dirty: Vec<bool>,
    /// How many samples were ever computed: the change-driven design makes
    /// this grow only for units whose progress or curve actually changed.
    pub samples_computed: u64,
}

impl<I: Interpolation> TweenWorld<I> {
    /// Number of units in the arena.
    pub open spec fn spec_len(self) -> nat {
        self.timers@.len()
    }

    /// The unit has a curve and a non-sentinel progress: it is due an
    /// interpolation value.
    pub open spec fn ready(self, u: int) -> bool {
        &&& self.curves@[u] is Some
        &&& match self.progresses@[u] {
            Some(p) => p.now_percentage is Some,
            None => false,
        }
    }

    /// Neither the unit's curve nor its progress changed since the last
    /// sampling.
    pub open spec fn clean(self, u: int) -> bool {
        !self.curve_dirty@[u] && !self.progress_dirty@[u]
    }

    /// The unit's stored value is the current curve sampled at the current
    /// clamped progress.
    pub open spec fn value_ok(self, u: int) -> bool {
        match (self.values@[u], self.progresses@[u], self.curves@[u]) {
            (Some(val), Some(p), Some(c)) => match p.now_percentage {
                Some(x) => val.0 as int == c.sample_spec(crate::interpolation::clamp_spec(x as int)),
                None => false,
            },
            _ => false,
        }
    }

    /// Structural invariant: the tables run in parallel, every timer is
    /// well formed, and a unit that is due a value and has seen no change
    /// since its last sampling still holds that sampling's result.
    pub open spec fn wf(self) -> bool {
        let n = self.timers@.len() as int;
        &&& self.curves@.len() == n
        &&& self.progresses@.len() == n
        &&& self.values@.len() == n
        &&& self.curve_dirty@.len() == n
        &&& self.progress_dirty@.len() == n
        &&& forall|u: int|
            0 <= u < n ==> ((#[trigger] self.timers@[u]) matches Some(t) ==> t.wf())
        &&& forall|u: int| #![trigger self.values@[u]]
            0 <= u < n && self.ready(u) && self.clean(u) ==> self.value_ok(u)
    }

    /// The timer table after every timer advanced by `dt`.
    pub open spec fn timer_after(self, dt: int, u: int) -> Option<TweenTimer> {
        match self.timers@[u] {
            Some(t) => Some(TweenTimer::spec_tick(t, dt)),
            None => None,
        }
    }

    /// The progress table after derivation from the current timers.
    pub open spec fn derived_progress(self, u: int) -> Option<TweenProgress> {
        match self.timers@[u] {
            Some(t) => Some(progress_of_timer(t)),
            None => self.progresses@[u],
        }
    }

    /// Whether unit `u`'s timer reaches completion during a tick by `dt`.
    pub open spec fn finishes(self, dt: int, u: int) -> bool {
        self.timers@[u] matches Some(t) && !t.completed && TweenTimer::spec_tick(t, dt).completed
    }

    /// An empty arena.
    pub fn new() -> (w: Self)
        ensures
            w.wf(),
            w.spec_len() == 0,
            w.samples_computed == 0,
    {
        TweenWorld {
            timers: Vec::new(),
            curves: Vec::new(),
            progresses: Vec::new(),
            values: Vec::new(),
            curve_dirty: Vec::new(),
            progress_dirty: Vec::new(),
            samples_computed: 0,
        }
    }

    /// Number of units in the arena.
    pub fn len(&self) -> (n: usize)
        ensures
            n == self.spec_len(),
    {
        self.timers.len()
    }

    /// Add a fresh unit with no timer, curve, progress or value; returns
    /// its stable identifier.
    pub fn spawn_unit(&mut self) -> (id: usize)
        requires
            old(self).wf(),
            old(self).spec_len() < usize::MAX,
        ensures
            final(self).wf(),
            id == old(self).spec_len(),
            final(self).spec_len() == old(self).spec_len() + 1,
            final(self).timers@ == old(self).timers@.push(None),
            final(self).curves@ == old(self).curves@.push(None),
            final(self).progresses@ == old(self).progresses@.push(None),
            final(self).values@ == old(self).values@.push(None),
            final(self).samples_computed == old(self).samples_computed,
    {
        let id = self.timers.len();
        self.timers.push(None);
        self.curves.push(None);
        self.progresses.push(None);
        self.values.push(None);
        self.curve_dirty.push(false);
        self.progress_dirty.push(false);
        id
    }

    /// Give a unit its timeline.
    pub fn set_timer(&mut self, id: usize, timer: TweenTimer)
        requires
            old(self).wf(),
            id < old(self).spec_len(),
            timer.wf(),
        ensures
            final(self).wf(),
            final(self).timers@ == old(self).timers@.update(id as int, Some(timer)),
            final(self).curves@ == old(self).curves@,
            final(self).progresses@ == old(self).progresses@,
            final(self).values@ == old(self).values@,
            final(self).samples_computed == old(self).samples_computed,
    {
        self.timers.set(id, Some(timer));
    }

    /// Tear a unit's timeline down: the timer and the progress derived
    /// from it disappear at once, and the next sampling pass of the same
    /// tick removes the unit's interpolation value.
    pub fn remove_timeline(&mut self, id: usize)
        requires
            old(self).wf(),
            id < old(self).spec_len(),
        ensures
            final(self).wf(),
            final(self).timers@ == old(self).timers@.update(id as int, None),
            final(self).progresses@ == old(self).progresses@.update(id as int, None),
            final(self).curves@ == old(self).curves@,
            final(self).values@ == old(self).values@,
            final(self).samples_computed == old(self).samples_computed,
    {
        self.timers.set(id, None);
        self.progresses.set(id, None);
    }

    /// Give a unit its easing curve; the unit is re-sampled on the next
    /// sampling pass.
    pub fn set_curve(&mut self, id: usize, curve: I)
        requires
            old(self).wf(),
            id < old(self).spec_len(),
        ensures
            final(self).wf(),
            final(self).curves@ == old(self).curves@.update(id as int, Some(curve)),
            final(self).curve_dirty@ == old(self).curve_dirty@.update(id as int, true),
            final(self).timers@ == old(self).timers@,
            final(self).progresses@ == old(self).progresses@,
            final(self).values@ == old(self).values@,
            final(self).samples_computed == old(self).samples_computed,
    {
        self.curves.set(id, Some(curve));
        self.curve_dirty.set(id, true);
    }

    /// Read a unit's timer.
    pub fn timer(&self, id: usize) -> (t: Option<TweenTimer>)
        requires
            self.wf(),
            id < self.spec_len(),
        ensures
            t == self.timers@[id as int],
    {
        self.timers[id]
    }

    /// Read a unit's published progress.
    pub fn progress(&self, id: usize) -> (p: Option<TweenProgress>)
        requires
            self.wf(),
            id < self.spec_len(),
        ensures
            p == self.progresses@[id as int],
    {
        self.progresses[id]
    }

    /// The sole read surface for appliers: a unit's interpolation value.
    pub fn interpolation_value(&self, id: usize) -> (v: Option<TweenInterpolationValue>)
        requires
            self.wf(),
            id < self.spec_len(),
        ensures
            v == self.values@[id as int],
    {
        self.values[id]
    }

    /// How many samples were ever computed: the observable recompute
    /// counter of the change-driven design.
    pub fn samples_computed(&self) -> (c: u64)
        ensures
            c == self.samples_computed,
    {
        self.samples_computed
    }

    /// Stage one: every timer consumes the tick's delta. Returns the
    /// one-shot "ended" notifications, one per timer that completed during
    /// this very advance, in increasing unit order.
    fn advance_timers(&mut self, dt: u64) -> (ended: Vec<TweenerEnded>)
        requires
            old(self).wf(),
            dt <= MAX_TIME,
        ensures
            final(self).wf(),
            final(self).spec_len() == old(self).spec_len(),
            forall|u: int|
                0 <= u < old(self).spec_len() ==> final(self).timers@[u] == old(self).timer_after(
                    dt as int,
                    u,
                ),
            final(self).curves@ == old(self).curves@,
            final(self).progresses@ == old(self).progresses@,
            final(self).values@ == old(self).values@,
            final(self).curve_dirty@ == old(self).curve_dirty@,
            final(self).progress_dirty@ == old(self).progress_dirty@,
            final(self).samples_computed == old(self).samples_computed,
            forall|i: int|
                0 <= i < ended@.len() ==> 0 <= (#[trigger] ended@[i]).unit
                    < old(self).spec_len() && old(self).finishes(dt as int, ended@[i].unit as int),
            forall|u: int|
                0 <= u < old(self).spec_len() && old(self).finishes(dt as int, u) ==> exists|i: int|
                    0 <= i < ended@.len() && (#[trigger] ended@[i]).unit == u,
            forall|i: int, k: int|
                0 <= i < k < ended@.len() ==> (#[trigger] ended@[i]).unit < (
                #[trigger] ended@[k]).unit,
    {
        let ghost w0 = *self;
        let mut ended: Vec<TweenerEnded> = Vec::new();
        let n = self.timers.len();
        let mut u: usize = 0;
        while u < n
            invariant
                self.wf(),
                *old(self) == w0,
                n == self.spec_len(),
                w0.spec_len() == n,
                u <= n,
                dt <= MAX_TIME,
                forall|j: int| 0 <= j < u ==> self.timers@[j] == w0.timer_after(dt as int, j),
                forall|j: int| u <= j < n ==> self.timers@[j] == w0.timers@[j],
                self.curves@ == w0.curves@,
                self.progresses@ == w0.progresses@,
                self.values@ == w0.values@,
                self.curve_dirty@ == w0.curve_dirty@,
                self.progress_dirty@ == w0.progress_dirty@,
                self.samples_computed == w0.samples_computed,
                forall|i: int|
                    0 <= i < ended@.len() ==> 0 <= (#[trigger] ended@[i]).unit < u && w0.finishes(
                        dt as int,
                        ended@[i].unit as int,
                    ),
                forall|j: int|
                    0 <= j < u && w0.finishes(dt as int, j) ==> exists|i: int|
                        0 <= i < ended@.len() && (#[trigger] ended@[i]).unit == j,
                forall|i: int, k: int|
                    0 <= i < k < ended@.len() ==> (#[trigger] ended@[i]).unit < (
                    #[trigger] ended@[k]).unit,
            decreases n - u,
        {
            let ghost e0 = ended@;
            let cur: Option<TweenTimer> = self.timers[u];
            match cur {
                Some(mut t) => {
                    let fin = t.tick(dt);
                    self.timers.set(u, Some(t));
                    if fin {
                        ended.push(TweenerEnded { unit: u });
                    }
                },
                None => {},
            }
            proof {
                assert forall|j: int|
                    0 <= j < u + 1 && w0.finishes(dt as int, j) implies exists|i: int|
                        0 <= i < ended@.len() && (#[trigger] ended@[i]).unit == j by {
                    if j < u {
                        let i0 = choose|i: int| 0 <= i < e0.len() && (#[trigger] e0[i]).unit == j;
                        assert(ended@[i0].unit == j);
                    } else {
                        assert(ended@[ended@.len() - 1].unit == j);
                    }
                }
            }
            u = u + 1;
        }
        ended
    }

    /// Stage two: every timer publishes its progress. A value identical to
    /// the one already published is not rewritten, so the unit's progress
    /// stays clean.
    fn derive_progresses(&mut self)
        requires
            old(self).wf(),
        ensures
            final(self).wf(),
            final(self).spec_len() == old(self).spec_len(),
            forall|u: int|
                0 <= u < old(self).spec_len() ==> final(self).progresses@[u] == old(self).derived_progress(u),
            final(self).timers@ == old(self).timers@,
            final(self).curves@ == old(self).curves@,
            final(self).values@ == old(self).values@,
            final(self).curve_dirty@ == old(self).curve_dirty@,
            final(self).samples_computed == old(self).samples_computed,
            forall|u: int|
                0 <= u < old(self).spec_len() ==> final(self).progress_dirty@[u] == (old(self).progress_dirty@[u] || final(self).progresses@[u] != old(self).progresses@[u]),
    {
        let ghost w0 = *self;
        let n = self.timers.len();
        let mut u: usize = 0;
        while u < n
            invariant
                self.wf(),
                *old(self) == w0,
                n == self.spec_len(),
                w0.spec_len() == n,
                u <= n,
                forall|j: int| 0 <= j < u ==> self.progresses@[j] == w0.derived_progress(j),
                forall|j: int| u <= j < n ==> self.progresses@[j] == w0.progresses@[j],
                self.timers@ == w0.timers@,
                self.curves@ == w0.curves@,
                self.values@ == w0.values@,
                self.curve_dirty@ == w0.curve_dirty@,
                self.samples_computed == w0.samples_computed,
                forall|j: int|
                    0 <= j < u ==> self.progress_dirty@[j] == (w0.progress_dirty@[j]
                        || self.progresses@[j] != w0.progresses@[j]),
                forall|j: int| u <= j < n ==> self.progress_dirty@[j] == w0.progress_dirty@[j],
            decreases n - u,
        {
            let cur: Option<TweenTimer> = self.timers[u];
            match cur {
                Some(t) => {
                    let p: Option<i64> = t.progress();
                    let newp = TweenProgress { now_percentage: p };
                    let same: bool = match self.progresses[u] {
                        None => false,
                        Some(oldp) => match (oldp.now_percentage, newp.now_percentage) {
                            (None, None) => true,
                            (Some(x), Some(y)) => x == y,
                            _ => false,
                        },
                    };
                    if !same {
                        self.progresses.set(u, Some(newp));
                        self.progress_dirty.set(u, true);
                    }
                },
                None => {},
            }
            u = u + 1;
        }
    }

    /// One whole scheduling tick: advance every timer, publish every
    /// progress, then re-sample every changed unit — three distinct passes
    /// in that order, each finishing before the next begins. Appliers read
    /// the values only after this returns.
    #[verifier::rlimit(100)]
    pub fn tick(&mut self, dt: u64) -> (ended: Vec<TweenerEnded>)
        requires
            old(self).wf(),
            dt <= MAX_TIME,
        ensures
            final(self).wf(),
            final(self).spec_len() == old(self).spec_len(),
            final(self).curves@ == old(self).curves@,
            forall|u: int|
                0 <= u < old(self).spec_len() ==> final(self).timers@[u] == old(self).timer_after(
                    dt as int,
                    u,
                ),
            forall|u: int|
                0 <= u < old(self).spec_len() ==> final(self).progresses@[u] == match old(self).timer_after(dt as int, u) {
                    Some(t) => Some(progress_of_timer(t)),
                    None => old(self).progresses@[u],
                },
            forall|u: int|
                0 <= u < old(self).spec_len() ==> ((#[trigger] final(self).values@[u]) is Some
                    <==> final(self).ready(u)),
            forall|u: int|
                0 <= u < old(self).spec_len() && final(self).ready(u) ==> #[trigger] final(self).value_ok(u),
            final(self).samples_computed >= old(self).samples_computed,
            (forall|u: int| #![trigger old(self).curve_dirty@[u]]
                0 <= u < old(self).spec_len() ==> old(self).clean(u) && old(self).derived_progress_after(dt as int, u) == old(self).progresses@[u]) ==> final(self).samples_computed == old(self).samples_computed,
            forall|i: int|
                0 <= i < ended@.len() ==> 0 <= (#[trigger] ended@[i]).unit < old(self).spec_len()
                    && old(self).finishes(dt as int, ended@[i].unit as int),
            forall|u: int|
                0 <= u < old(self).spec_len() && old(self).finishes(dt as int, u) ==> exists|i: int|
                    0 <= i < ended@.len() && (#[trigger] ended@[i]).unit == u,
            forall|i: int, k: int|
                0 <= i < k < ended@.len() ==> (#[trigger] ended@[i]).unit < (
                #[trigger] ended@[k]).unit,
    {
        let ghost w0 = *old(self);
        let ended = self.advance_timers(dt);
        let ghost w1 = *self;
        self.derive_progresses();
        let ghost w2 = *self;
        crate::interpolation::sample_interpolations_system(self);
        proof {
            let n = w0.spec_len() as int;
            assert forall|u: int| 0 <= u < n implies self.timers@[u] == w0.timer_after(
                dt as int,
                u,
            ) && self.progresses@[u] == w0.derived_progress_after(dt as int, u) by {
                assert(w1.timers@[u] == w0.timer_after(dt as int, u));
                assert(w2.progresses@[u] == w1.derived_progress(u));
                assert(self.progresses@[u] == w2.progresses@[u]);
            }
            if forall|u: int| #![trigger old(self).curve_dirty@[u]]
                0 <= u < old(self).spec_len() ==> old(self).clean(u) && old(
                    self,
                ).derived_progress_after(dt as int, u) == old(self).progresses@[u] {
                assert forall|u: int| 0 <= u < n implies #[trigger] w2.clean(u) by {
                    assert(old(self).curve_dirty@[u] == w0.curve_dirty@[u]);
                    assert(old(self).clean(u) && old(self).derived_progress_after(dt as int, u)
                        == old(self).progresses@[u]);
                    assert(w0.clean(u));
                    assert(w1.timers@[u] == w0.timer_after(dt as int, u));
                    assert(w1.progresses@[u] == w0.progresses@[u]);
                    assert(w1.derived_progress(u) == w0.derived_progress_after(dt as int, u));
                    assert(w2.progresses@[u] == w1.derived_progress(u));
                    assert(w2.progress_dirty@[u] == (w1.progress_dirty@[u] || w2.progresses@[u]
                        != w1.progresses@[u]));
                    assert(w1.progress_dirty@[u] == w0.progress_dirty@[u]);
                    assert(w2.curve_dirty@[u] == w0.curve_dirty@[u]);
                }
                assert(self.samples_computed == w2.samples_computed);
                assert(w2.samples_computed == w1.samples_computed);
                assert(w1.samples_computed == w0.samples_computed);
                assert(self.samples_computed == old(self).samples_computed);
            }
        }
        ended
    }

    /// The progress unit `u` will publish after a tick by `dt`.
    pub open spec fn derived_progress_after(self, dt: int, u: int) -> Option<TweenProgress> {
        match self.timer_after(dt, u) {
            Some(t) => Some(progress_of_timer(t)),
            None => self.progresses@[u],
        }
    }
}

} // verus!
