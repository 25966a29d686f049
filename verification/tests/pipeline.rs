use tween_core::interpolation::{sample_interpolations_system, EaseFunction};
use tween_core::tween::{TweenInterpolationValue, TweenWorld};
use tween_core::tween_timer::TweenTimer;
use tween_core::SCALE;

fn linear_unit(duration: u64) -> (TweenWorld<EaseFunction>, usize) {
    let mut world: TweenWorld<EaseFunction> = TweenWorld::new();
    let id = world.spawn_unit();
    world.set_timer(id, TweenTimer::new(duration));
    world.set_curve(id, EaseFunction::Linear);
    (world, id)
}

#[test]
fn end_to_end_linear_quarters() {
    let (mut world, id) = linear_unit(1_000_000);
    let mut progresses = Vec::new();
    let mut values = Vec::new();
    let mut ended_total = 0;
    for _ in 0..4 {
        let ended = world.tick(250_000);
        ended_total += ended.len();
        progresses.push(world.progress(id).unwrap().now_percentage.unwrap());
        values.push(world.interpolation_value(id).unwrap().0);
    }
    assert_eq!(progresses, vec![250_000, 500_000, 750_000, 1_000_000]);
    assert_eq!(values, progresses);
    assert_eq!(ended_total, 1);
}

#[test]
fn ended_event_names_the_unit_and_fires_once() {
    let (mut world, id) = linear_unit(10);
    let ended = world.tick(25);
    assert_eq!(ended.len(), 1);
    assert_eq!(ended[0].unit, id);
    assert_eq!(world.progress(id).unwrap().now_percentage, Some(SCALE));
    let again = world.tick(5);
    assert!(again.is_empty());
}

#[test]
fn unchanged_units_are_not_resampled() {
    let (mut world, id) = linear_unit(10);
    world.tick(25);
    let after_first = world.samples_computed();
    assert_eq!(after_first, 1);
    // the timer is completed: progress and curve are unchanged from here on
    world.tick(5);
    world.tick(0);
    assert_eq!(world.samples_computed(), after_first);
    assert_eq!(
        world.interpolation_value(id),
        Some(TweenInterpolationValue(SCALE))
    );
}

#[test]
fn a_changed_curve_forces_one_resample() {
    let (mut world, id) = linear_unit(10);
    world.tick(25);
    assert_eq!(world.samples_computed(), 1);
    world.set_curve(id, EaseFunction::QuadraticIn);
    world.tick(0);
    assert_eq!(world.samples_computed(), 2);
    assert_eq!(
        world.interpolation_value(id),
        Some(TweenInterpolationValue(SCALE))
    );
}

#[test]
fn removing_the_timeline_removes_the_value_in_the_same_tick() {
    let (mut world, id) = linear_unit(10);
    world.tick(4);
    assert!(world.interpolation_value(id).is_some());
    // mid-tick teardown: the progress disappears with the timeline, and the
    // sampling stage of the very same tick drops the stale value
    world.remove_timeline(id);
    sample_interpolations_system(&mut world);
    assert_eq!(world.interpolation_value(id), None);
}

#[test]
fn delayed_unit_is_withheld_from_sampling() {
    let mut world: TweenWorld<EaseFunction> = TweenWorld::new();
    let id = world.spawn_unit();
    let mut timer = TweenTimer::new(10);
    timer.set_delay(5);
    world.set_timer(id, timer);
    world.set_curve(id, EaseFunction::Linear);
    world.tick(3);
    assert_eq!(world.progress(id).unwrap().now_percentage, None);
    assert_eq!(world.interpolation_value(id), None);
    world.tick(4);
    assert_eq!(world.progress(id).unwrap().now_percentage, Some(200_000));
    assert_eq!(
        world.interpolation_value(id),
        Some(TweenInterpolationValue(200_000))
    );
}

#[test]
fn units_are_sampled_independently() {
    let mut world: TweenWorld<EaseFunction> = TweenWorld::new();
    let a = world.spawn_unit();
    let b = world.spawn_unit();
    let c = world.spawn_unit();
    world.set_timer(a, TweenTimer::new(10));
    world.set_curve(a, EaseFunction::Linear);
    world.set_timer(b, TweenTimer::new(10));
    world.set_curve(b, EaseFunction::QuadraticIn);
    // unit c has a timer but no curve: it never receives a value
    world.set_timer(c, TweenTimer::new(10));
    world.tick(5);
    assert_eq!(
        world.interpolation_value(a),
        Some(TweenInterpolationValue(500_000))
    );
    assert_eq!(
        world.interpolation_value(b),
        Some(TweenInterpolationValue(250_000))
    );
    assert_eq!(world.interpolation_value(c), None);
    assert_eq!(world.samples_computed(), 2);
}

#[test]
fn a_unit_without_a_timer_stays_inert() {
    let mut world: TweenWorld<EaseFunction> = TweenWorld::new();
    let id = world.spawn_unit();
    world.set_curve(id, EaseFunction::Linear);
    world.tick(5);
    assert_eq!(world.progress(id), None);
    assert_eq!(world.interpolation_value(id), None);
    assert_eq!(world.samples_computed(), 0);
}
