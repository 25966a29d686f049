use tween_core::tween_timer::{AnimationDirection, Repeat, RepeatStyle, TweenTimer};
use tween_core::SCALE;

#[test]
fn zero_delta_is_a_no_op() {
    let mut t = TweenTimer::new(10);
    t.tick(4);
    let before = t;
    let finished = t.tick(0);
    assert!(!finished);
    assert_eq!(t, before);
    assert_eq!(t.progress(), before.progress());
}

#[test]
fn zero_delta_preserves_repeat_state() {
    let mut t = TweenTimer::new(10);
    t.set_repeat(Some((Repeat::Times(3), RepeatStyle::PingPong)));
    t.tick(15);
    let before = t;
    t.tick(0);
    assert_eq!(t.elapsed, before.elapsed);
    assert_eq!(t.direction, before.direction);
    assert_eq!(t.repeats_done, before.repeats_done);
}

#[test]
fn one_step_past_the_end_completes_at_exactly_one() {
    let mut t = TweenTimer::new(10);
    let finished = t.tick(25);
    assert!(finished);
    assert!(t.completed);
    assert_eq!(t.elapsed, 10);
    assert_eq!(t.progress(), Some(SCALE));
    // the signal is one-shot
    assert!(!t.tick(5));
}

#[test]
fn exactly_the_duration_completes_forward() {
    let mut t = TweenTimer::new(10);
    assert!(t.tick(10));
    assert!(t.completed);
    assert_eq!(t.progress(), Some(SCALE));
}

#[test]
fn backward_completion_clamps_to_zero() {
    let mut t = TweenTimer::new(10);
    t.set_direction(AnimationDirection::Backward);
    let finished = t.tick(12);
    assert!(finished);
    assert!(t.completed);
    assert_eq!(t.elapsed, 0);
    assert_eq!(t.progress(), Some(0));
}

#[test]
fn repeat_with_restart_wraps_by_exact_modulo() {
    let mut t = TweenTimer::new(10);
    t.set_repeat(Some((Repeat::Times(3), RepeatStyle::Restart)));
    let finished = t.tick(25);
    assert!(!finished);
    assert!(!t.completed);
    assert_eq!(t.repeats_done, 2);
    assert_eq!(t.elapsed, 5);
    assert_eq!(t.progress(), Some(SCALE / 2));
}

#[test]
fn restart_landing_exactly_on_the_boundary_wraps_to_zero() {
    let mut t = TweenTimer::new(10);
    t.set_repeat(Some((Repeat::Times(3), RepeatStyle::Restart)));
    assert!(!t.tick(10));
    assert_eq!(t.repeats_done, 1);
    assert_eq!(t.elapsed, 0);
    assert_eq!(t.progress(), Some(0));
}

#[test]
fn exhausted_restart_repeats_complete_at_the_end() {
    let mut t = TweenTimer::new(10);
    t.set_repeat(Some((Repeat::Times(1), RepeatStyle::Restart)));
    let finished = t.tick(25);
    assert!(finished);
    assert!(t.completed);
    assert_eq!(t.repeats_done, 1);
    assert_eq!(t.progress(), Some(SCALE));
}

#[test]
fn ping_pong_reflects_and_flips_direction() {
    let mut t = TweenTimer::new(10);
    t.set_repeat(Some((Repeat::Infinitely, RepeatStyle::PingPong)));
    let finished = t.tick(15);
    assert!(!finished);
    assert_eq!(t.elapsed, 5);
    assert_eq!(t.direction, AnimationDirection::Backward);
    assert_eq!(t.progress(), Some(SCALE / 2));
}

#[test]
fn ping_pong_folds_several_bounces_in_one_step() {
    let mut t = TweenTimer::new(10);
    t.set_repeat(Some((Repeat::Infinitely, RepeatStyle::PingPong)));
    let finished = t.tick(35);
    assert!(!finished);
    assert_eq!(t.elapsed, 5);
    assert_eq!(t.direction, AnimationDirection::Backward);
    assert_eq!(t.repeats_done, 3);
    assert_eq!(t.progress(), Some(SCALE / 2));
}

#[test]
fn zero_duration_resolves_to_completed_without_fault() {
    let mut t = TweenTimer::new(0);
    let finished = t.tick(5);
    assert!(finished);
    assert!(t.completed);
    assert_eq!(t.progress(), Some(SCALE));

    let mut b = TweenTimer::new(0);
    b.set_direction(AnimationDirection::Backward);
    assert!(b.tick(1));
    assert_eq!(b.progress(), Some(0));
}

#[test]
fn delay_withholds_progress_then_plays() {
    let mut t = TweenTimer::new(10);
    t.set_delay(5);
    t.tick(3);
    assert_eq!(t.progress(), None);
    t.tick(10);
    // two remaining ticks of delay, then eight of playback
    assert_eq!(t.elapsed, 8);
    assert_eq!(t.progress(), Some(800_000));
}

#[test]
fn direction_reversal_keeps_elapsed_time() {
    let mut t = TweenTimer::new(10);
    t.tick(3);
    t.set_direction(AnimationDirection::Backward);
    assert_eq!(t.elapsed, 3);
    t.tick(2);
    assert_eq!(t.elapsed, 1);
    assert_eq!(t.progress(), Some(100_000));
}
