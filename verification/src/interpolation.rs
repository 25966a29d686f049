//! Easing curves and their sampling contract.
//!
//! An easing curve remaps normalized progress (`0 ..= SCALE` fixed-point
//! units) to a normalized interpolation value; overshooting curves may leave
//! that range strictly inside the domain, but every named curve maps `0` to
//! `0` and `SCALE` to `SCALE` ([`lemma_ease_endpoints`]), and every in-out
//! variant passes exactly through the midpoint
//! ([`lemma_ease_in_out_midpoint`]).

use vstd::prelude::*;

pub mod ease_functions;

verus! {

use crate::SCALE;

/// A sampling algorithm that turns normalized progress into an
/// interpolation value.
///
/// Implementations declare their mathematical meaning as `sample_spec` and
/// must compute exactly that. The input must lie in `0 ..= SCALE`; callers
/// clamp first. The result is free to overshoot that range.
pub trait Interpolation {
    /// The value this algorithm assigns to a progress `v`.
    spec fn sample_spec(&self, v: int) -> int;

    /// Sample a value from this algorithm.
    fn sample(&self, v: i64) -> (r: i64)
        requires
            0 <= v <= SCALE,
        ensures
            r == self.sample_spec(v as int),
    ;
}

/// Easing functions put into an enum.
#[derive(Debug, Default, Clone, Copy, PartialEq, Eq)]
pub enum EaseFunction {
    #[default]
    Linear,
    QuadraticIn,
    QuadraticOut,
    QuadraticInOut,
    CubicIn,
    CubicOut,
    CubicInOut,
    QuarticIn,
    QuarticOut,
    QuarticInOut,
    QuinticIn,
    QuinticOut,
    QuinticInOut,
    SineIn,
    SineOut,
    SineInOut,
    CircularIn,
    CircularOut,
    CircularInOut,
    ExponentialIn,
    ExponentialOut,
    ExponentialInOut,
    ElasticIn,
    ElasticOut,
    ElasticInOut,
    BackIn,
    BackOut,
    BackInOut,
    BounceIn,
    BounceOut,
    BounceInOut,
}

/// The value each named curve assigns to a progress `v`.
pub open spec fn ease_sample_spec(f: EaseFunction, v: int) -> int {
    match f {
        EaseFunction::Linear => ease_functions::linear_spec(v),
        EaseFunction::QuadraticIn => ease_functions::quadratic_in_spec(v),
        EaseFunction::QuadraticOut => ease_functions::quadratic_out_spec(v),
        EaseFunction::QuadraticInOut => ease_functions::quadratic_in_out_spec(v),
        EaseFunction::CubicIn => ease_functions::cubic_in_spec(v),
        EaseFunction::CubicOut => ease_functions::cubic_out_spec(v),
        EaseFunction::CubicInOut => ease_functions::cubic_in_out_spec(v),
        EaseFunction::QuarticIn => ease_functions::quartic_in_spec(v),
        EaseFunction::QuarticOut => ease_functions::quartic_out_spec(v),
        EaseFunction::QuarticInOut => ease_functions::quartic_in_out_spec(v),
        EaseFunction::QuinticIn => ease_functions::quintic_in_spec(v),
        EaseFunction::QuinticOut => ease_functions::quintic_out_spec(v),
        EaseFunction::QuinticInOut => ease_functions::quintic_in_out_spec(v),
        EaseFunction::SineIn => ease_functions::sine_in_spec(v),
        EaseFunction::SineOut => ease_functions::sine_out_spec(v),
        EaseFunction::SineInOut => ease_functions::sine_in_out_spec(v),
        EaseFunction::CircularIn => ease_functions::circular_in_spec(v),
        EaseFunction::CircularOut => ease_functions::circular_out_spec(v),
        EaseFunction::CircularInOut => ease_functions::circular_in_out_spec(v),
        EaseFunction::ExponentialIn => ease_functions::exponential_in_spec(v),
        EaseFunction::ExponentialOut => ease_functions::exponential_out_spec(v),
        EaseFunction::ExponentialInOut => ease_functions::exponential_in_out_spec(v),
        EaseFunction::ElasticIn => ease_functions::elastic_in_spec(v),
        EaseFunction::ElasticOut => ease_functions::elastic_out_spec(v),
        EaseFunction::ElasticInOut => ease_functions::elastic_in_out_spec(v),
        EaseFunction::BackIn => ease_functions::back_in_spec(v),
        EaseFunction::BackOut => ease_functions::back_out_spec(v),
        EaseFunction::BackInOut => ease_functions::back_in_out_spec(v),
        EaseFunction::BounceIn => ease_functions::bounce_in_spec(v),
        EaseFunction::BounceOut => ease_functions::bounce_out_spec(v),
        EaseFunction::BounceInOut => ease_functions::bounce_in_out_spec(v),
    }
}

/// Whether a curve is one of the in-out variants.
pub open spec fn is_in_out(f: EaseFunction) -> bool {
    match f {
        EaseFunction::QuadraticInOut => true,
        EaseFunction::CubicInOut => true,
        EaseFunction::QuarticInOut => true,
        EaseFunction::QuinticInOut => true,
        EaseFunction::SineInOut => true,
        EaseFunction::CircularInOut => true,
        EaseFunction::ExponentialInOut => true,
        EaseFunction::ElasticInOut => true,
        EaseFunction::BackInOut => true,
        EaseFunction::BounceInOut => true,
        _ => false,
    }
}

impl EaseFunction {
    /// Sample a value from this ease function.
    pub fn sample(&self, v: i64) -> (r: i64)
        requires
            0 <= v <= SCALE,
        ensures
            r == ease_sample_spec(*self, v as int),
    {
        match self {
            EaseFunction::Linear => ease_functions::linear(v),
            EaseFunction::QuadraticIn => ease_functions::quadratic_in(v),
            EaseFunction::QuadraticOut => ease_functions::quadratic_out(v),
            EaseFunction::QuadraticInOut => ease_functions::quadratic_in_out(v),
            EaseFunction::CubicIn => ease_functions::cubic_in(v),
            EaseFunction::CubicOut => ease_functions::cubic_out(v),
            EaseFunction::CubicInOut => ease_functions::cubic_in_out(v),
            EaseFunction::QuarticIn => ease_functions::quartic_in(v),
            EaseFunction::QuarticOut => ease_functions::quartic_out(v),
            EaseFunction::QuarticInOut => ease_functions::quartic_in_out(v),
            EaseFunction::QuinticIn => ease_functions::quintic_in(v),
            EaseFunction::QuinticOut => ease_functions::quintic_out(v),
            EaseFunction::QuinticInOut => ease_functions::quintic_in_out(v),
            EaseFunction::SineIn => ease_functions::sine_in(v),
            EaseFunction::SineOut => ease_functions::sine_out(v),
            EaseFunction::SineInOut => ease_functions::sine_in_out(v),
            EaseFunction::CircularIn => ease_functions::circular_in(v),
            EaseFunction::CircularOut => ease_functions::circular_out(v),
            EaseFunction::CircularInOut => ease_functions::circular_in_out(v),
            EaseFunction::ExponentialIn => ease_functions::exponential_in(v),
            EaseFunction::ExponentialOut => ease_functions::exponential_out(v),
            EaseFunction::ExponentialInOut => ease_functions::exponential_in_out(v),
            EaseFunction::ElasticIn => ease_functions::elastic_in(v),
            EaseFunction::ElasticOut => ease_functions::elastic_out(v),
            EaseFunction::ElasticInOut => ease_functions::elastic_in_out(v),
            EaseFunction::BackIn => ease_functions::back_in(v),
            EaseFunction::BackOut => ease_functions::back_out(v),
            EaseFunction::BackInOut => ease_functions::back_in_out(v),
            EaseFunction::BounceIn => ease_functions::bounce_in(v),
            EaseFunction::BounceOut => ease_functions::bounce_out(v),
            EaseFunction::BounceInOut => ease_functions::bounce_in_out(v),
        }
    }
}

impl Interpolation for EaseFunction {
    open spec fn sample_spec(&self, v: int) -> int {
        ease_sample_spec(*self, v)
    }

    fn sample(&self, v: i64) -> (r: i64) {
        EaseFunction::sample(self, v)
    }
}

/// Progress clamped into the normalized domain before sampling.
pub open spec fn clamp_spec(v: int) -> int {
    if v < 0 {
        0
    } else if v > SCALE as int {
        SCALE as int
    } else {
        v
    }
}

fn clamp_unit(v: i64) -> (r: i64)
    ensures
        r == clamp_spec(v as int),
        0 <= r <= SCALE,
{
    if v < 0 {
        0
    } else if v > SCALE {
        SCALE
    } else {
        v
    }
}

/// Stage three: sample every unit whose progress or curve changed since it
/// was last sampled and store the result as its interpolation value. Units
/// whose progress is absent or the sentinel lose their value in the same
/// pass, so no stale value ever reaches the appliers; units with no change
/// are not recomputed.
pub fn sample_interpolations_system<I: Interpolation>(world: &mut crate::tween::TweenWorld<I>)
    requires
        old(world).wf(),
    ensures
        final(world).wf(),
        final(world).spec_len() == old(world).spec_len(),
        final(world).timers@ == old(world).timers@,
        final(world).curves@ == old(world).curves@,
        final(world).progresses@ == old(world).progresses@,
        forall|u: int|
            0 <= u < old(world).spec_len() ==> ((#[trigger] final(world).values@[u]) is Some
                <==> final(world).ready(u)),
        forall|u: int| #![trigger final(world).values@[u]]
            0 <= u < old(world).spec_len() && final(world).ready(u) ==> final(world).value_ok(u),
        final(world).samples_computed >= old(world).samples_computed,
        (forall|u: int| 0 <= u < old(world).spec_len() ==> #[trigger] old(world).clean(u))
            ==> final(world).samples_computed == old(world).samples_computed,
{
    let ghost w0 = *world;
    let n = world.timers.len();
    let mut u: usize = 0;
    while u < n
        invariant
            world.wf(),
            *old(world) == w0,
            n == world.spec_len(),
            w0.spec_len() == n,
            u <= n,
            world.timers@ == w0.timers@,
            world.curves@ == w0.curves@,
            world.progresses@ == w0.progresses@,
            forall|j: int|
                0 <= j < u ==> ((#[trigger] world.values@[j]) is Some <==> world.ready(j)),
            forall|j: int| #![trigger world.values@[j]]
                0 <= j < u && world.ready(j) ==> world.value_ok(j),
            forall|j: int| u <= j < n ==> world.values@[j] == w0.values@[j],
            forall|j: int|
                0 <= j < u ==> (#[trigger] world.curve_dirty@[j]) == (w0.curve_dirty@[j]
                    && !world.ready(j)),
            forall|j: int|
                0 <= j < u ==> (#[trigger] world.progress_dirty@[j]) == (w0.progress_dirty@[j]
                    && !world.ready(j)),
            forall|j: int| u <= j < n ==> world.curve_dirty@[j] == w0.curve_dirty@[j],
            forall|j: int| u <= j < n ==> world.progress_dirty@[j] == w0.progress_dirty@[j],
            world.samples_computed >= w0.samples_computed,
            world.samples_computed != w0.samples_computed ==> exists|j: int|
                0 <= j < u && !(#[trigger] w0.clean(j)),
        decreases n - u,
    {
        let pr: Option<crate::tween::TweenProgress> = world.progresses[u];
        let mut cleared: bool = false;
        match pr {
            None => {
                cleared = true;
            },
            Some(p) => {
                match p.now_percentage {
                    None => {
                        cleared = true;
                    },
                    Some(x) => {
                        let has_curve: bool = world.curves[u].is_some();
                        if !has_curve {
                            cleared = true;
                        } else {
                            if world.curve_dirty[u] || world.progress_dirty[u] {
                                let copt: &Option<I> = &world.curves[u];
                                match copt {
                                    Some(c) => {
                                        let val = c.sample(clamp_unit(x));
                                        world.values.set(
                                            u,
                                            Some(crate::tween::TweenInterpolationValue(val)),
                                        );
                                        world.curve_dirty.set(u, false);
                                        world.progress_dirty.set(u, false);
                                        if world.samples_computed < u64::MAX {
                                            world.samples_computed = world.samples_computed + 1;
                                        }
                                        proof {
                                            assert(!w0.clean(u as int));
                                        }
                                    },
                                    None => {},
                                }
                            }
                        }
                    },
                }
            },
        }
        if cleared {
            world.values.set(u, None);
        }
        u = u + 1;
    }
}

/// Every named curve starts at zero and ends at one: `sample` maps `0` to
/// `0` and `SCALE` to `SCALE`, whichever curve is chosen.
#[verifier::rlimit(100)]
pub proof fn lemma_ease_endpoints(f: EaseFunction)
    ensures
        ease_sample_spec(f, 0) == 0,
        ease_sample_spec(f, SCALE as int) == SCALE as int,
{
    let s = SCALE as int;
    ease_functions::lemma_half_scale();
    ease_functions::lemma_term_ends(s);
    ease_functions::lemma_term_ends(2 * s);
    ease_functions::lemma_term_ends(4 * s);
    ease_functions::lemma_term_ends(8 * s);
    ease_functions::lemma_term_ends(16 * s);
    ease_functions::lemma_term_ends(ease_functions::BACK_C1 as int);
    ease_functions::lemma_term_ends(ease_functions::BACK_C3 as int);
    ease_functions::lemma_term_ends(ease_functions::BACK_IO_A as int);
    ease_functions::lemma_term_ends(ease_functions::BACK_IO_B as int);
    ease_functions::lemma_cos_q_ends();
    ease_functions::lemma_exp2neg_zero();
    ease_functions::lemma_bounce_out_ends();
    ease_functions::lemma_sqrt_unit();
    vstd::arithmetic::div_mod::lemma_div_of0(2);
    ease_functions::lemma_div_exact(2 * s, 2, s);
    assert(s * s - 0 * 0 == 1_000_000_000_000 && (2 * s - 0) * 0 == 0
        && (2 * s - s) * s == 1_000_000_000_000 && s * s - s * s == 0
        && s * s - 4 * 0 * 0 == 1_000_000_000_000 && (11 * 0) * (11 * 0) == 0)
        by (nonlinear_arith)
        requires
            s == 1_000_000,
    ;
    assert(ease_functions::sqrt_floor(0nat) == 0);
    assert(ease_sample_spec(f, 0) == 0);
    assert(ease_sample_spec(f, s) == s);
}

/// Every in-out curve passes exactly through the midpoint: at half
/// progress it yields half of the normalized range.
#[verifier::rlimit(100)]
pub proof fn lemma_ease_in_out_midpoint(f: EaseFunction)
    requires
        is_in_out(f),
    ensures
        ease_sample_spec(f, (SCALE as int) / 2) == (SCALE as int) / 2,
{
    let s = SCALE as int;
    ease_functions::lemma_half_scale();
    ease_functions::lemma_term_mids();
    ease_functions::lemma_term_ends(ease_functions::BACK_IO_A as int);
    ease_functions::lemma_term_ends(ease_functions::BACK_IO_B as int);
    ease_functions::lemma_cos_q_ends();
    ease_functions::lemma_exp2neg_zero();
    ease_functions::lemma_sin_half_quarter();
    ease_functions::lemma_bounce_out_ends();
    ease_functions::lemma_sqrt_unit();
    assert(s * s - s * s == 0 && 99_000_000int == 36 * 2_750_000
        && 2_750_000int == 2 * 1_000_000 + 750_000
        && 1_000_000int * 1_000_000 == 1_000_000_000_000
        && 1_000_000_000_000int == (2 * 1_000_000) * 500_000) by (nonlinear_arith);
    assert(ease_functions::sqrt_floor(0nat) == 0);
    ease_functions::lemma_div_exact(s + ease_functions::cos_q_spec(s), 2, 500_000);
    ease_functions::lemma_div_exact(99_000_000, 36, 2_750_000);
    vstd::arithmetic::div_mod::lemma_fundamental_div_mod_converse_mod(
        2_750_000,
        s,
        2,
        750_000,
    );
    ease_functions::lemma_div_exact(1_000_000int * 1_000_000, 2 * s, 500_000);
    ease_functions::lemma_div_exact(
        s + ease_functions::bounce_out_spec(0),
        2,
        500_000,
    );
    ease_functions::lemma_div_exact(
        s + ease_functions::sqrt_floor((s * s - s * s) as nat),
        2,
        500_000,
    );
    assert(ease_sample_spec(f, s / 2) == s / 2);
}

} // verus!
