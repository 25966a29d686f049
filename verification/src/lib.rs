//! Time-driven property animation ("tweening").
//!
//! The crate turns elapsed time into interpolation values in three steps,
//! run once per scheduling tick and strictly in this order:
//!
//! 1. every [`tween_timer::TweenTimer`] advances by the tick's delta and
//!    re-derives its boundary-crossing behaviour (repeat, ping-pong,
//!    completion);
//! 2. each timer publishes a normalized progress value
//!    ([`tween::TweenProgress`]), or withholds one while the timer has not
//!    begun;
//! 3. the sampler feeds changed progress values through an easing curve
//!    ([`interpolation::EaseFunction`]) and stores the result as the unit's
//!    [`tween::TweenInterpolationValue`], which external appliers read.
//!
//! All quantities are fixed-point numbers: a normalized value of one is
//! [`SCALE`] units. Times are plain integer ticks chosen by the host.

use vstd::prelude::*;

pub mod interpolation;
pub mod tween;
pub mod tween_timer;

verus! {

/// Fixed-point unit: the normalized value `1.0` is this many units.
pub const SCALE: i64 = 1_000_000;

/// The four stages of one scheduling tick, in their mandatory order.
///
/// [`tween::TweenWorld::tick`] runs the first three as distinct passes over
/// the whole unit population, each finishing before the next begins; the
/// `ApplyTween` stage belongs to external appliers, which read the
/// interpolation values only after `tick` returns.
#[derive(Debug, Clone, Copy, PartialEq, Eq)]
pub enum TweenSystemSet {
    /// Advance every timer by the tick's delta time.
    TickTweener,
    /// Derive a progress value from every advanced timer.
    Tweener,
    /// Re-sample the easing curve of every unit whose progress or curve
    /// changed.
    UpdateInterpolationValue,
    /// Externally, write sampled values into their target properties.
    ApplyTween,
}

} // verus!
