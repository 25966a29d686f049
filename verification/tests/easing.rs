use tween_core::interpolation::EaseFunction;
use tween_core::SCALE;

const ALL_CURVES: [EaseFunction; 31] = [
    EaseFunction::Linear,
    EaseFunction::QuadraticIn,
    EaseFunction::QuadraticOut,
    EaseFunction::QuadraticInOut,
    EaseFunction::CubicIn,
    EaseFunction::CubicOut,
    EaseFunction::CubicInOut,
    EaseFunction::QuarticIn,
    EaseFunction::QuarticOut,
    EaseFunction::QuarticInOut,
    EaseFunction::QuinticIn,
    EaseFunction::QuinticOut,
    EaseFunction::QuinticInOut,
    EaseFunction::SineIn,
    EaseFunction::SineOut,
    EaseFunction::SineInOut,
    EaseFunction::CircularIn,
    EaseFunction::CircularOut,
    EaseFunction::CircularInOut,
    EaseFunction::ExponentialIn,
    EaseFunction::ExponentialOut,
    EaseFunction::ExponentialInOut,
    EaseFunction::ElasticIn,
    EaseFunction::ElasticOut,
    EaseFunction::ElasticInOut,
    EaseFunction::BackIn,
    EaseFunction::BackOut,
    EaseFunction::BackInOut,
    EaseFunction::BounceIn,
    EaseFunction::BounceOut,
    EaseFunction::BounceInOut,
];

const IN_OUT_CURVES: [EaseFunction; 10] = [
    EaseFunction::QuadraticInOut,
    EaseFunction::CubicInOut,
    EaseFunction::QuarticInOut,
    EaseFunction::QuinticInOut,
    EaseFunction::SineInOut,
    EaseFunction::CircularInOut,
    EaseFunction::ExponentialInOut,
    EaseFunction::ElasticInOut,
    EaseFunction::BackInOut,
    EaseFunction::BounceInOut,
];

#[test]
fn every_curve_starts_at_zero_and_ends_at_one() {
    for f in ALL_CURVES {
        assert_eq!(f.sample(0), 0, "{:?} at 0", f);
        assert_eq!(f.sample(SCALE), SCALE, "{:?} at 1", f);
    }
}

#[test]
fn every_in_out_curve_passes_through_the_midpoint() {
    for f in IN_OUT_CURVES {
        assert_eq!(f.sample(SCALE / 2), SCALE / 2, "{:?} at 1/2", f);
    }
}

#[test]
fn linear_is_the_identity() {
    for v in [0, 1, 250_000, 333_333, 500_000, 999_999, SCALE] {
        assert_eq!(EaseFunction::Linear.sample(v), v);
    }
}

#[test]
fn polynomial_curves_at_the_midpoint() {
    assert_eq!(EaseFunction::QuadraticIn.sample(500_000), 250_000);
    assert_eq!(EaseFunction::CubicIn.sample(500_000), 125_000);
    assert_eq!(EaseFunction::QuarticIn.sample(500_000), 62_500);
    assert_eq!(EaseFunction::QuinticIn.sample(500_000), 31_250);
}

#[test]
fn quadratic_out_at_a_quarter() {
    // 1 - (1 - 1/4)^2 = 7/16
    assert_eq!(EaseFunction::QuadraticOut.sample(250_000), 437_500);
}

#[test]
fn exponential_in_at_the_midpoint_is_exact() {
    // 2^(10 * 1/2 - 10) = 2^-5 = 1/32
    assert_eq!(EaseFunction::ExponentialIn.sample(500_000), 31_250);
}

#[test]
fn circular_in_at_the_midpoint() {
    // 1 - sqrt(3/4), to the unit below
    assert_eq!(EaseFunction::CircularIn.sample(500_000), 133_975);
}

#[test]
fn sine_in_at_the_midpoint_tracks_the_cosine() {
    // 1 - cos(pi/4) is about 0.2929; the rational approximation is within
    // two thousandths of it
    let got = EaseFunction::SineIn.sample(500_000);
    assert_eq!(got, 294_118);
    assert!((got - 292_893).abs() < 2_000);
}

#[test]
fn back_in_overshoots_below_zero() {
    assert_eq!(EaseFunction::BackIn.sample(500_000), -87_698);
}

#[test]
fn bounce_out_at_the_midpoint_is_exact() {
    // 7.5625 * (1/2 - 6/11)^2 + 3/4 = 0.765625 exactly
    assert_eq!(EaseFunction::BounceOut.sample(500_000), 765_625);
}

#[test]
fn bounce_in_mirrors_bounce_out() {
    for v in [0, 123_456, 500_000, 750_000, SCALE] {
        assert_eq!(
            EaseFunction::BounceIn.sample(v),
            SCALE - EaseFunction::BounceOut.sample(SCALE - v)
        );
    }
}

#[test]
fn overshooting_curves_still_hit_the_endpoints() {
    for f in [
        EaseFunction::ElasticIn,
        EaseFunction::ElasticOut,
        EaseFunction::ElasticInOut,
        EaseFunction::BackIn,
        EaseFunction::BackOut,
        EaseFunction::BackInOut,
    ] {
        assert_eq!(f.sample(0), 0);
        assert_eq!(f.sample(SCALE), SCALE);
    }
}

#[test]
fn out_variants_mirror_their_in_variants_at_the_midpoint() {
    assert_eq!(EaseFunction::CubicOut.sample(500_000), 875_000);
    assert_eq!(EaseFunction::QuarticOut.sample(500_000), 937_500);
    assert_eq!(EaseFunction::QuinticOut.sample(500_000), 968_750);
    assert_eq!(EaseFunction::ExponentialOut.sample(500_000), 968_750);
}

#[test]
fn sine_out_and_in_out_track_the_rational_cosine() {
    assert_eq!(EaseFunction::SineOut.sample(500_000), 705_882);
    assert_eq!(EaseFunction::SineInOut.sample(250_000), 147_059);
}

#[test]
fn circular_out_and_in_out_at_known_points() {
    assert_eq!(EaseFunction::CircularOut.sample(500_000), 866_025);
    assert_eq!(EaseFunction::CircularInOut.sample(250_000), 66_987);
}

#[test]
fn exponential_in_out_at_a_quarter_is_exact() {
    // 2^(20 * 1/4 - 10) / 2 = 2^-5 / 2 = 1/64
    assert_eq!(EaseFunction::ExponentialInOut.sample(250_000), 15_625);
}

#[test]
fn back_out_overshoots_above_one() {
    assert_eq!(EaseFunction::BackOut.sample(500_000), 1_087_698);
}

#[test]
fn back_in_out_dips_below_zero_in_the_first_half() {
    assert_eq!(EaseFunction::BackInOut.sample(250_000), -99_682);
}

#[test]
fn bounce_in_out_at_a_quarter() {
    assert_eq!(EaseFunction::BounceInOut.sample(250_000), 117_187);
}

#[test]
fn default_curve_is_linear() {
    assert_eq!(EaseFunction::default(), EaseFunction::Linear);
}
