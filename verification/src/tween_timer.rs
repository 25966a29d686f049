//! The timer state machine that owns playback position.
//!
//! A [`TweenTimer`] holds elapsed time, total duration, playback direction
//! and a repeat policy, all in integer ticks. Once per scheduling tick it
//! advances by a delta and re-derives boundary behaviour: a non-repeating
//! timer clamps at its boundary and completes; a repeating one either
//! restarts from the opposite boundary or reflects (ping-pong), folding as
//! many boundary crossings as the delta covers and consuming one repeat per
//! crossing. From the advanced state a normalized progress is derived; a
//! timer still inside its start delay withholds progress instead.

use vstd::prelude::*;
use vstd::arithmetic::div_mod::lemma_multiply_divide_le;

verus! {

use crate::SCALE;

/// Upper bound on durations, delays and per-tick deltas, in ticks.
pub const MAX_TIME: u64 = 1_000_000_000_000;

/// Which way a timer's elapsed position moves.
#[derive(Debug, Clone, Copy, PartialEq, Eq, Structural)]
pub enum AnimationDirection {
    /// Elapsed time grows toward the duration.
    Forward,
    /// Elapsed time shrinks toward zero.
    Backward,
}

/// How many times a timer may cross a boundary before it completes.
#[derive(Debug, Clone, Copy, PartialEq, Eq, Structural)]
pub enum Repeat {
    /// A fixed number of boundary crossings.
    Times(u32),
    /// No limit: the timer never completes.
    Infinitely,
}

/// What happens to the elapsed position at a boundary crossing.
#[derive(Debug, Clone, Copy, PartialEq, Eq, Structural)]
pub enum RepeatStyle {
    /// Jump back to the opposite boundary and keep the direction.
    Restart,
    /// Reflect off the boundary and flip the direction.
    PingPong,
}

/// The per-unit playback state machine.
#[derive(Debug, Clone, Copy, PartialEq, Eq)]
pub struct TweenTimer {
    /// Total length of one playback pass, in ticks.
    pub duration: u64,
    /// Current position inside the pass, in ticks from its start.
    pub elapsed: u64,
    /// Which way the position moves on the next advance.
    pub direction: AnimationDirection,
    /// The repeat policy, or `None` to play once and stop.
    pub repeat: Option<(Repeat, RepeatStyle)>,
    /// How many boundary crossings have been consumed so far.
    pub repeats_done: u32,
    /// Whether the timer has reached its terminal state.
    pub completed: bool,
    /// Ticks to wait before playback begins.
    pub delay: u64,
    /// Ticks of the delay already waited through.
    pub waited: u64,
}

impl TweenTimer {
    /// Structural invariant: every position and bound stays inside the
    /// machine limits, and a finite repeat counter never exceeds its limit.
    pub open spec fn wf(self) -> bool {
        &&& self.elapsed <= self.duration
        &&& self.duration <= MAX_TIME
        &&& self.delay <= MAX_TIME
        &&& self.waited <= self.delay
        &&& match self.repeat {
            Some((Repeat::Times(n), _)) => self.repeats_done <= n,
            _ => true,
        }
    }

    /// A timer is started once its delay has been fully waited through.
    pub open spec fn spec_started(self) -> bool {
        self.waited == self.delay
    }

    /// Saturating repeat counting, for timers that repeat without limit.
    pub open spec fn spec_sat_done(done: int, c: int) -> int {
        if done + c > 0xffff_ffff {
            0xffff_ffff
        } else {
            done + c
        }
    }

    /// One advance in the forward frame: the mover starts at `start` ticks
    /// into a pass of length `d > 0` and travels `rest` ticks toward the
    /// end. Yields the new position, whether the frame direction is still
    /// forward, the new repeat counter and whether the timer completed.
    pub open spec fn spec_advance_fwd(
        d: int,
        start: int,
        rest: int,
        repeat: Option<(Repeat, RepeatStyle)>,
        done: int,
    ) -> (int, bool, int, bool) {
        let total = start + rest;
        match repeat {
            None => if total >= d {
                (d, true, done, true)
            } else {
                (total, true, done, false)
            },
            Some((rep, style)) => {
                let c = total / d;
                let rem = total % d;
                let allowed: int = match rep {
                    Repeat::Times(n) => n - done,
                    Repeat::Infinitely => c,
                };
                if c <= allowed {
                    let done2 = match rep {
                        Repeat::Times(n) => done + c,
                        Repeat::Infinitely => Self::spec_sat_done(done, c),
                    };
                    match style {
                        RepeatStyle::Restart => (rem, true, done2, false),
                        RepeatStyle::PingPong => if c % 2 == 0 {
                            (rem, true, done2, false)
                        } else {
                            (d - rem, false, done2, false)
                        },
                    }
                } else {
                    match style {
                        RepeatStyle::Restart => (d, true, done + allowed, true),
                        RepeatStyle::PingPong => if allowed % 2 == 0 {
                            (d, true, done + allowed, true)
                        } else {
                            (0, false, done + allowed, true)
                        },
                    }
                }
            },
        }
    }

    /// One advance of a started, incomplete timer with a positive duration,
    /// in its own direction: a backward timer advances in the mirrored
    /// frame and mirrors the outcome back.
    pub open spec fn spec_advance(t: TweenTimer, rest: int) -> TweenTimer {
        let d = t.duration as int;
        let fwd = t.direction is Forward;
        let start = if fwd {
            t.elapsed as int
        } else {
            d - t.elapsed
        };
        let (pos, frame_fwd, done2, completed) = Self::spec_advance_fwd(
            d,
            start,
            rest,
            t.repeat,
            t.repeats_done as int,
        );
        TweenTimer {
            elapsed: (if fwd {
                pos
            } else {
                d - pos
            }) as u64,
            direction: if fwd == frame_fwd {
                AnimationDirection::Forward
            } else {
                AnimationDirection::Backward
            },
            repeats_done: done2 as u32,
            completed,
            ..t
        }
    }

    /// One whole tick: a completed timer is inert; a zero-duration timer
    /// resolves to completed at once; otherwise the delta first fills the
    /// start delay and whatever remains moves the elapsed position.
    pub open spec fn spec_tick(t: TweenTimer, dt: int) -> TweenTimer {
        if t.completed {
            t
        } else if t.duration == 0 {
            TweenTimer { completed: true, ..t }
        } else {
            let wait_left = t.delay - t.waited;
            if dt <= wait_left {
                TweenTimer { waited: (t.waited + dt) as u64, ..t }
            } else {
                Self::spec_advance(
                    TweenTimer { waited: t.delay, ..t },
                    dt - wait_left,
                )
            }
        }
    }

    /// The normalized progress this timer publishes: `None` while the start
    /// delay is still being waited through, the direction's boundary for a
    /// degenerate zero duration, and the elapsed fraction otherwise.
    pub open spec fn spec_progress(t: TweenTimer) -> Option<int> {
        if !t.spec_started() && !t.completed {
            None
        } else if t.duration == 0 {
            Some(
                if t.direction is Forward {
                    SCALE as int
                } else {
                    0
                },
            )
        } else {
            Some((t.elapsed as int * SCALE as int) / t.duration as int)
        }
    }

    /// Boundary correctness: a started, non-repeating timer advanced in
    /// one step by at least its whole duration completes, with its elapsed
    /// position clamped to the boundary it was moving toward, and publishes
    /// exactly the boundary progress — one for forward, zero for backward.
    pub proof fn lemma_boundary_completion(t: TweenTimer, dt: int)
        requires
            t.wf(),
            !t.completed,
            t.repeat is None,
            t.spec_started(),
            t.duration > 0,
            dt >= t.duration,
        ensures
            Self::spec_tick(t, dt).completed,
            t.direction is Forward ==> Self::spec_tick(t, dt).elapsed == t.duration
                && Self::spec_progress(Self::spec_tick(t, dt)) == Some(SCALE as int),
            t.direction is Backward ==> Self::spec_tick(t, dt).elapsed == 0
                && Self::spec_progress(Self::spec_tick(t, dt)) == Some(0int),
    {
        let d = t.duration as int;
        let s = SCALE as int;
        let t2 = Self::spec_tick(t, dt);
        assert(d * s == d * s && 0 * s == 0) by (nonlinear_arith);
        crate::interpolation::ease_functions::lemma_div_exact(d * s, d, s);
        vstd::arithmetic::div_mod::lemma_div_of0(d);
        assert(0int * s == 0) by (nonlinear_arith);
    }

    /// Repeat-with-restart wraps by exact modulo arithmetic: as long as the
    /// crossings a step covers stay within the remaining repeat budget, the
    /// new elapsed position is the remainder of the total travel by the
    /// duration, and every full period consumed counts as one repeat.
    pub proof fn lemma_restart_wraps_by_modulo(t: TweenTimer, dt: int)
        requires
            t.wf(),
            !t.completed,
            t.spec_started(),
            t.duration > 0,
            t.elapsed < t.duration,
            t.direction is Forward,
            dt >= 0,
            t.repeat matches Some((Repeat::Times(n), RepeatStyle::Restart))
                && (t.elapsed + dt) / (t.duration as int) <= n - t.repeats_done,
        ensures
            Self::spec_tick(t, dt).elapsed == (t.elapsed + dt) % (t.duration as int),
            Self::spec_tick(t, dt).repeats_done == t.repeats_done + (t.elapsed + dt) / (
            t.duration as int),
            !Self::spec_tick(t, dt).completed,
            Self::spec_tick(t, dt).direction is Forward,
    {
        let d = t.duration as int;
        let total = t.elapsed + dt;
        vstd::arithmetic::div_mod::lemma_mod_bound(total, d);
        vstd::arithmetic::div_mod::lemma_div_pos_is_pos(total, d);
        if dt == 0 {
            vstd::arithmetic::div_mod::lemma_basic_div(total, d);
            vstd::arithmetic::div_mod::lemma_small_mod(total as nat, d as nat);
        }
    }

    /// Ping-pong reflects: for an endlessly repeating timer, the total
    /// travel folds back and forth over the duration, so the position is
    /// the remainder or its reflection by the parity of the crossings, and
    /// the direction flips once per crossing.
    pub proof fn lemma_ping_pong_reflects(t: TweenTimer, dt: int)
        requires
            t.wf(),
            !t.completed,
            t.spec_started(),
            t.duration > 0,
            t.elapsed < t.duration,
            t.direction is Forward,
            dt >= 0,
            t.repeat == Some((Repeat::Infinitely, RepeatStyle::PingPong)),
        ensures
            Self::spec_tick(t, dt).elapsed == (if ((t.elapsed + dt) / (t.duration as int)) % 2
                == 0 {
                (t.elapsed + dt) % (t.duration as int)
            } else {
                t.duration - (t.elapsed + dt) % (t.duration as int)
            }),
            Self::spec_tick(t, dt).direction == (if ((t.elapsed + dt) / (t.duration as int)) % 2
                == 0 {
                AnimationDirection::Forward
            } else {
                AnimationDirection::Backward
            }),
            !Self::spec_tick(t, dt).completed,
    {
        let d = t.duration as int;
        let total = t.elapsed + dt;
        vstd::arithmetic::div_mod::lemma_mod_bound(total, d);
        vstd::arithmetic::div_mod::lemma_div_pos_is_pos(total, d);
        if dt == 0 {
            vstd::arithmetic::div_mod::lemma_basic_div(total, d);
            vstd::arithmetic::div_mod::lemma_small_mod(total as nat, d as nat);
        }
    }

    /// A fresh forward timer that plays once, with no delay.
    pub fn new(duration: u64) -> (t: TweenTimer)
        requires
            duration <= MAX_TIME,
        ensures
            t == (TweenTimer {
                duration,
                elapsed: 0,
                direction: AnimationDirection::Forward,
                repeat: None,
                repeats_done: 0,
                completed: false,
                delay: 0,
                waited: 0,
            }),
            t.wf(),
    {
        TweenTimer {
            duration,
            elapsed: 0,
            direction: AnimationDirection::Forward,
            repeat: None,
            repeats_done: 0,
            completed: false,
            delay: 0,
            waited: 0,
        }
    }

    /// Install a repeat policy; the crossing counter starts over.
    pub fn set_repeat(&mut self, repeat: Option<(Repeat, RepeatStyle)>)
        requires
            old(self).wf(),
        ensures
            *final(self) == (TweenTimer { repeat, repeats_done: 0, ..*old(self) }),
            final(self).wf(),
    {
        self.repeat = repeat;
        self.repeats_done = 0;
    }

    /// Reverse or set the playback direction without touching the elapsed
    /// position: only the sign applied on the next tick changes.
    pub fn set_direction(&mut self, direction: AnimationDirection)
        requires
            old(self).wf(),
        ensures
            *final(self) == (TweenTimer { direction, ..*old(self) }),
            final(self).wf(),
    {
        self.direction = direction;
    }

    /// Install a start delay, counted from now.
    pub fn set_delay(&mut self, delay: u64)
        requires
            old(self).wf(),
            delay <= MAX_TIME,
        ensures
            *final(self) == (TweenTimer { delay, waited: 0, ..*old(self) }),
            final(self).wf(),
    {
        self.delay = delay;
        self.waited = 0;
    }

    /// Advance the timer by `dt` ticks and re-derive boundary behaviour.
    /// Returns whether this very call brought the timer to completion: the
    /// one-shot "ended" signal.
    pub fn tick(&mut self, dt: u64) -> (finished: bool)
        requires
            old(self).wf(),
            dt <= MAX_TIME,
        ensures
            *final(self) == Self::spec_tick(*old(self), dt as int),
            final(self).wf(),
            finished == (!old(self).completed && final(self).completed),
            dt == 0 ==> final(self).elapsed == old(self).elapsed
                && final(self).direction == old(self).direction
                && final(self).repeats_done == old(self).repeats_done,
    {
        if self.completed {
            return false;
        }
        if self.duration == 0 {
            self.completed = true;
            return true;
        }
        let wait_left: u64 = self.delay - self.waited;
        if dt <= wait_left {
            self.waited = self.waited + dt;
            return false;
        }
        self.waited = self.delay;
        let rest: u64 = dt - wait_left;
        let d: u64 = self.duration;
        let fwd: bool = matches!(self.direction, AnimationDirection::Forward);
        let start: u64 = if fwd {
            self.elapsed
        } else {
            d - self.elapsed
        };
        let total: u64 = start + rest;
        let (pos, frame_fwd, done2, completed): (u64, bool, u32, bool) = match self.repeat {
            None => {
                if total >= d {
                    (d, true, self.repeats_done, true)
                } else {
                    (total, true, self.repeats_done, false)
                }
            },
            Some((rep, style)) => {
                let c: u64 = total / d;
                let rem: u64 = total % d;
                let allowed: u64 = match rep {
                    Repeat::Times(n) => (n - self.repeats_done) as u64,
                    Repeat::Infinitely => c,
                };
                if c <= allowed {
                    let done2: u32 = match rep {
                        Repeat::Times(_) => self.repeats_done + (c as u32),
                        Repeat::Infinitely => {
                            if c >= (u32::MAX - self.repeats_done) as u64 {
                                u32::MAX
                            } else {
                                self.repeats_done + (c as u32)
                            }
                        },
                    };
                    match style {
                        RepeatStyle::Restart => (rem, true, done2, false),
                        RepeatStyle::PingPong => {
                            if c % 2 == 0 {
                                (rem, true, done2, false)
                            } else {
                                (d - rem, false, done2, false)
                            }
                        },
                    }
                } else {
                    let done2: u32 = self.repeats_done + (allowed as u32);
                    match style {
                        RepeatStyle::Restart => (d, true, done2, true),
                        RepeatStyle::PingPong => {
                            if allowed % 2 == 0 {
                                (d, true, done2, true)
                            } else {
                                (0, false, done2, true)
                            }
                        },
                    }
                }
            },
        };
        self.elapsed = if fwd {
            pos
        } else {
            d - pos
        };
        self.direction = if fwd == frame_fwd {
            AnimationDirection::Forward
        } else {
            AnimationDirection::Backward
        };
        self.repeats_done = done2;
        self.completed = completed;
        completed
    }

    /// Derive the normalized progress this timer currently publishes.
    pub fn progress(&self) -> (p: Option<i64>)
        requires
            self.wf(),
        ensures
            match p {
                Some(v) => Self::spec_progress(*self) == Some(v as int) && 0 <= v <= SCALE,
                None => Self::spec_progress(*self) is None,
            },
    {
        if self.waited < self.delay && !self.completed {
            return None;
        }
        if self.duration == 0 {
            return Some(
                if matches!(self.direction, AnimationDirection::Forward) {
                    SCALE
                } else {
                    0
                },
            );
        }
        let n: u64 = self.elapsed * (SCALE as u64);
        proof {
            let e = self.elapsed as int;
            let d = self.duration as int;
            let s = SCALE as int;
            assert(e * s <= d * s && e * s <= 1_000_000_000_000 * 1_000_000int
                && 0 <= e * s) by (nonlinear_arith)
                requires
                    0 <= e <= d <= 1_000_000_000_000,
                    s == 1_000_000,
            ;
            lemma_multiply_divide_le(e * s, d, s);
        }
        Some((n / self.duration) as i64)
    }
}

} // verus!
