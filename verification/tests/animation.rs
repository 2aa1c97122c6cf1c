use superui_flair::animations::animation::AnimationDirection as D;
use superui_flair::animations::animation::AnimationFillMode as F;
use superui_flair::animations::animation::{
    Animation, AnimationDirection, AnimationFillMode, AnimationOptions, AnimationPlayState, AnimationState,
    IterationCount,
};

const ONE_SECOND: u128 = 1_000_000_000;
const TWO_SECONDS: u128 = 2_000_000_000;
const HALF_SECOND: u128 = 500_000_000;
const TWO_ITERATIONS: IterationCount = IterationCount::Count(2);

fn default_animation_options() -> AnimationOptions {
    AnimationOptions { duration: ONE_SECOND, ..AnimationOptions::default() }
}

fn new_animation(options: &AnimationOptions) -> Animation {
    Animation::new("test".to_string(), options)
}

/// The value a linear curve from 0 to 100 takes where the animation stands.
fn sample_value(animation: &Animation) -> Option<f32> {
    animation.sample_point().map(|point| {
        let t = point.numerator as f32 / point.denominator as f32;
        let t = if point.reversed { 1.0 - t } else { t };
        100.0 * t
    })
}

#[test]
fn basic_animation() {
    let mut animation = new_animation(&default_animation_options());

    assert_eq!(animation.state, AnimationState::Pending);
    assert_eq!(animation.initial_delay, 0);
    assert_eq!(animation.duration, ONE_SECOND);
    assert_eq!(animation.direction, AnimationDirection::Normal);
    assert_eq!(animation.total_elapsed(), 0);
    assert_eq!(sample_value(&animation), None);

    animation.tick(0);
    assert_eq!(animation.state, AnimationState::Running);
    assert_eq!(sample_value(&animation), Some(0.0));
    assert_eq!(animation.total_elapsed(), 0);

    animation.tick(HALF_SECOND);
    assert_eq!(animation.state, AnimationState::Running);
    assert_eq!(sample_value(&animation), Some(50.0));
    assert_eq!(animation.total_elapsed(), HALF_SECOND);

    animation.tick(HALF_SECOND);
    assert_eq!(animation.state, AnimationState::JustFinished);
    assert_eq!(sample_value(&animation), Some(100.0));
    assert_eq!(animation.total_elapsed(), ONE_SECOND);

    animation.tick(0);
    assert_eq!(animation.state, AnimationState::JustFinished);
    assert_eq!(sample_value(&animation), Some(100.0));

    animation.tick(HALF_SECOND);
    assert_eq!(animation.state, AnimationState::Finished);
    assert_eq!(sample_value(&animation), None);
    assert_eq!(animation.total_elapsed(), ONE_SECOND);
}

#[test]
fn zero_duration_animation() {
    let mut animation = new_animation(&AnimationOptions { duration: 0, ..default_animation_options() });

    assert_eq!(animation.state, AnimationState::Pending);
    assert_eq!(animation.initial_delay, 0);
    assert_eq!(animation.duration, 0);
    assert_eq!(animation.total_elapsed(), 0);
    assert_eq!(sample_value(&animation), None);

    animation.tick(0);
    assert_eq!(animation.state, AnimationState::JustFinished);
    assert_eq!(sample_value(&animation), None);
    assert_eq!(animation.total_elapsed(), 0);
}

#[test]
fn zero_iterations_animation() {
    let animation = new_animation(&AnimationOptions {
        iteration_count: IterationCount::Count(0),
        ..default_animation_options()
    });

    assert_eq!(animation.state, AnimationState::Finished);
    assert_eq!(animation.duration, ONE_SECOND);
    assert_eq!(animation.total_elapsed(), 0);
    assert_eq!(sample_value(&animation), None);
}

#[test]
fn update_options() {
    let mut animation = new_animation(&default_animation_options());

    animation.tick(HALF_SECOND);
    assert_eq!(animation.state, AnimationState::Running);
    assert_eq!(sample_value(&animation), Some(50.0));
    assert_eq!(animation.total_elapsed(), HALF_SECOND);

    animation.update_options(&AnimationOptions { initial_delay: ONE_SECOND, ..default_animation_options() });
    assert_eq!(animation.state, AnimationState::Pending);
    assert_eq!(sample_value(&animation), None);
    assert_eq!(animation.total_elapsed(), HALF_SECOND);

    animation.tick(TWO_SECONDS);
    assert_eq!(animation.state, AnimationState::JustFinished);
    assert_eq!(sample_value(&animation), Some(100.0));
    assert_eq!(animation.total_elapsed(), TWO_SECONDS);

    animation.update_options(&AnimationOptions {
        initial_delay: ONE_SECOND,
        iteration_count: TWO_ITERATIONS,
        ..default_animation_options()
    });
    assert_eq!(animation.state, AnimationState::Running);
    assert_eq!(sample_value(&animation), Some(0.0));
    assert_eq!(animation.get_current_iteration(), 1);
    assert_eq!(animation.total_elapsed(), TWO_SECONDS);
}

#[test]
fn update_does_not_restart_animation() {
    let mut animation = new_animation(&default_animation_options());

    animation.tick(ONE_SECOND);
    animation.tick(ONE_SECOND);
    assert_eq!(animation.state, AnimationState::Finished);
    assert_eq!(sample_value(&animation), None);
    assert_eq!(animation.total_elapsed(), ONE_SECOND);

    animation.update_options(&default_animation_options());
    assert_eq!(animation.state, AnimationState::Finished);
    assert_eq!(sample_value(&animation), None);
    assert_eq!(animation.total_elapsed(), ONE_SECOND);
}

#[test]
fn update_and_total_elapsed_are_consistent() {
    let all_directions = [
        AnimationDirection::Normal,
        AnimationDirection::Reverse,
        AnimationDirection::Alternate,
        AnimationDirection::AlternateReverse,
    ];
    let all_fill_modes = [
        AnimationFillMode::NoFill,
        AnimationFillMode::Backwards,
        AnimationFillMode::Forwards,
        AnimationFillMode::Both,
    ];
    let delta: u128 = 250_000_000;

    for initial_delay in [0, HALF_SECOND, ONE_SECOND, TWO_SECONDS] {
        for duration in [HALF_SECOND, ONE_SECOND, TWO_SECONDS] {
            for iteration_count in [
                IterationCount::Count(1),
                IterationCount::Count(2),
                IterationCount::Count(5),
                IterationCount::Infinite,
            ] {
                for direction in all_directions {
                    for fill_mode in all_fill_modes {
                        let options = AnimationOptions {
                            initial_delay,
                            duration,
                            direction,
                            fill_mode,
                            iteration_count,
                            ..AnimationOptions::default()
                        };
                        let mut animation = Animation::new("consistency-test".to_string(), &options);
                        let max_count: u128 = match iteration_count {
                            IterationCount::Count(count) => count as u128,
                            IterationCount::Infinite => 10,
                        };
                        let total_duration = duration * max_count + initial_delay;

                        let mut elapsed: u128 = 0;
                        while elapsed < total_duration {
                            assert_eq!(animation.total_elapsed(), elapsed, "Inconsistent with {options:?}");

                            let previous_value = sample_value(&animation);
                            let previous_direction = animation.current_direction;
                            let previous_iteration_state = animation.iteration_state;
                            let previous_current_iteration = animation.get_current_iteration();

                            animation.update_options(&AnimationOptions {
                                play_state: AnimationPlayState::Paused,
                                ..options
                            });
                            assert_eq!(sample_value(&animation), previous_value, "Inconsistent with {options:?}");
                            assert_eq!(animation.current_direction, previous_direction, "Inconsistent with {options:?}");
                            assert_eq!(animation.iteration_state, previous_iteration_state, "Inconsistent with {options:?}");
                            assert_eq!(
                                animation.get_current_iteration(),
                                previous_current_iteration,
                                "Inconsistent with {options:?}"
                            );
                            assert_eq!(animation.total_elapsed(), elapsed, "Inconsistent with {options:?}");

                            animation.update_options(&AnimationOptions {
                                play_state: AnimationPlayState::Running,
                                ..options
                            });
                            animation.tick(delta);
                            elapsed += delta;
                        }
                        assert_eq!(animation.total_elapsed(), total_duration, "Inconsistent with {options:?}");
                    }
                }
            }
        }
    }
}

#[test]
fn animation_cancel() {
    let mut animation = new_animation(&default_animation_options());

    animation.tick(0);
    assert_eq!(animation.state, AnimationState::Running);
    assert_eq!(sample_value(&animation), Some(0.0));

    animation.tick(HALF_SECOND);
    assert_eq!(animation.state, AnimationState::Running);
    assert_eq!(sample_value(&animation), Some(50.0));

    animation.cancel();
    animation.tick(10 * ONE_SECOND);

    assert_eq!(animation.state, AnimationState::Canceled);
    assert!(!animation.is_active());
    assert_eq!(sample_value(&animation), None);
    assert!(!animation.can_be_ticked());
}

#[test]
fn animation_animation_play_state() {
    let mut animation = new_animation(&default_animation_options());

    animation.tick(0);
    assert_eq!(animation.state, AnimationState::Running);
    assert_eq!(animation.get_play_state(), AnimationPlayState::Running);
    assert_eq!(sample_value(&animation), Some(0.0));

    animation.tick(HALF_SECOND);
    assert_eq!(animation.state, AnimationState::Running);
    assert_eq!(sample_value(&animation), Some(50.0));
    assert_eq!(animation.total_elapsed(), HALF_SECOND);

    animation.update_options(&AnimationOptions {
        play_state: AnimationPlayState::Paused,
        ..default_animation_options()
    });
    animation.tick(10 * ONE_SECOND);

    assert_eq!(animation.state, AnimationState::Running);
    assert_eq!(animation.get_play_state(), AnimationPlayState::Paused);
    assert!(animation.is_active());
    assert_eq!(sample_value(&animation), Some(50.0));
    assert_eq!(animation.total_elapsed(), HALF_SECOND);

    animation.update_options(&AnimationOptions {
        play_state: AnimationPlayState::Running,
        ..default_animation_options()
    });
    assert_eq!(animation.state, AnimationState::Running);
    assert_eq!(animation.get_play_state(), AnimationPlayState::Running);
    assert_eq!(sample_value(&animation), Some(50.0));
    assert_eq!(animation.total_elapsed(), HALF_SECOND);

    animation.tick(HALF_SECOND);
    assert_eq!(animation.total_elapsed(), ONE_SECOND);
}

#[test]
fn reverse_animation() {
    let mut animation = new_animation(&AnimationOptions {
        direction: AnimationDirection::Reverse,
        iteration_count: TWO_ITERATIONS,
        ..default_animation_options()
    });
    assert_eq!(animation.direction, AnimationDirection::Reverse);

    animation.tick(0);
    assert_eq!(animation.state, AnimationState::Running);
    assert_eq!(sample_value(&animation), Some(100.0));

    animation.tick(HALF_SECOND);
    assert_eq!(animation.state, AnimationState::Running);
    assert_eq!(sample_value(&animation), Some(50.0));
    assert_eq!(animation.get_current_iteration(), 0);

    animation.tick(HALF_SECOND);
    assert_eq!(animation.state, AnimationState::Running);
    assert_eq!(sample_value(&animation), Some(100.0));
    assert_eq!(animation.get_current_iteration(), 1);

    animation.tick(HALF_SECOND);
    assert_eq!(animation.state, AnimationState::Running);
    assert_eq!(sample_value(&animation), Some(50.0));
    assert_eq!(animation.get_current_iteration(), 1);

    animation.tick(HALF_SECOND);
    assert_eq!(animation.state, AnimationState::JustFinished);
    assert_eq!(sample_value(&animation), Some(0.0));
    assert_eq!(animation.total_elapsed(), TWO_SECONDS);
}

#[test]
fn alternate_animation() {
    let mut animation = new_animation(&AnimationOptions {
        initial_delay: ONE_SECOND,
        direction: AnimationDirection::Alternate,
        iteration_count: TWO_ITERATIONS,
        ..default_animation_options()
    });
    assert_eq!(animation.direction, AnimationDirection::Alternate);

    animation.tick(HALF_SECOND);
    assert_eq!(animation.state, AnimationState::Pending);
    assert_eq!(sample_value(&animation), None);

    animation.tick(HALF_SECOND);
    assert_eq!(animation.state, AnimationState::Running);
    assert_eq!(sample_value(&animation), Some(0.0));

    animation.tick(HALF_SECOND);
    assert_eq!(animation.state, AnimationState::Running);
    assert_eq!(sample_value(&animation), Some(50.0));

    animation.tick(HALF_SECOND);
    assert_eq!(animation.state, AnimationState::Running);
    assert_eq!(sample_value(&animation), Some(100.0));

    animation.tick(HALF_SECOND);
    assert_eq!(animation.state, AnimationState::Running);
    assert_eq!(sample_value(&animation), Some(50.0));

    animation.tick(HALF_SECOND);
    assert_eq!(animation.state, AnimationState::JustFinished);
    assert_eq!(sample_value(&animation), Some(0.0));

    animation.tick(HALF_SECOND);
    assert_eq!(animation.state, AnimationState::Finished);
    assert_eq!(sample_value(&animation), None);
    assert_eq!(animation.total_elapsed(), 3 * ONE_SECOND);
}

#[test]
fn animation_fill_mode_one_iteration() {
    let expected_values: [(F, D, [Option<f32>; 4]); 10] = [
        (F::NoFill, D::Normal, [None, Some(0.0), Some(100.0), None]),
        (F::Backwards, D::Normal, [Some(0.0), Some(0.0), Some(100.0), None]),
        (F::Backwards, D::Reverse, [Some(100.0), Some(100.0), Some(0.0), None]),
        (F::Backwards, D::AlternateReverse, [Some(100.0), Some(100.0), Some(0.0), None]),
        (F::Forwards, D::Normal, [None, Some(0.0), Some(100.0), Some(100.0)]),
        (F::Forwards, D::Reverse, [None, Some(100.0), Some(0.0), Some(0.0)]),
        (F::Forwards, D::AlternateReverse, [None, Some(100.0), Some(0.0), Some(0.0)]),
        (F::Both, D::Normal, [Some(0.0), Some(0.0), Some(100.0), Some(100.0)]),
        (F::Both, D::Reverse, [Some(100.0), Some(100.0), Some(0.0), Some(0.0)]),
        (F::Both, D::AlternateReverse, [Some(100.0), Some(100.0), Some(0.0), Some(0.0)]),
    ];

    for (fill_mode, direction, expected) in expected_values {
        let [expected_delay, expected_running_start, expected_running_end, expected_finished] = expected;
        let mut animation = new_animation(&AnimationOptions {
            fill_mode,
            direction,
            initial_delay: ONE_SECOND,
            duration: ONE_SECOND,
            ..default_animation_options()
        });

        assert_eq!(animation.state, AnimationState::Pending);
        assert_eq!(animation.direction, direction);
        assert_eq!(animation.fill_mode, fill_mode);

        animation.tick(0);
        assert_eq!(animation.state, AnimationState::Pending);
        assert_eq!(sample_value(&animation), expected_delay, "Failed on delay for {fill_mode:?} / {direction:?}");

        animation.tick(ONE_SECOND);
        assert_eq!(animation.state, AnimationState::Running);
        assert_eq!(sample_value(&animation), expected_running_start, "Failed on iter start for {fill_mode:?} / {direction:?}");

        animation.tick(ONE_SECOND);
        assert_eq!(animation.state, AnimationState::JustFinished);
        assert_eq!(sample_value(&animation), expected_running_end, "Failed on iter end for {fill_mode:?} / {direction:?}");

        animation.tick(ONE_SECOND);
        assert_eq!(animation.state, AnimationState::Finished);
        assert_eq!(sample_value(&animation), expected_finished, "Failed on finished for {fill_mode:?} / {direction:?}");
    }
}

#[test]
fn animation_fill_mode_two_iterations() {
    let expected_values: [(F, D, [Option<f32>; 5]); 11] = [
        (F::NoFill, D::Normal, [None, Some(0.0), Some(0.0), Some(100.0), None]),
        (F::Backwards, D::Normal, [Some(0.0), Some(0.0), Some(0.0), Some(100.0), None]),
        (F::Backwards, D::Reverse, [Some(100.0), Some(100.0), Some(100.0), Some(0.0), None]),
        (F::Backwards, D::AlternateReverse, [Some(100.0), Some(100.0), Some(0.0), Some(100.0), None]),
        (F::Forwards, D::Normal, [None, Some(0.0), Some(0.0), Some(100.0), Some(100.0)]),
        (F::Forwards, D::Reverse, [None, Some(100.0), Some(100.0), Some(0.0), Some(0.0)]),
        (F::Forwards, D::AlternateReverse, [None, Some(100.0), Some(0.0), Some(100.0), Some(100.0)]),
        (F::Both, D::Normal, [Some(0.0), Some(0.0), Some(0.0), Some(100.0), Some(100.0)]),
        (F::Both, D::Alternate, [Some(0.0), Some(0.0), Some(100.0), Some(0.0), Some(0.0)]),
        (F::Both, D::Reverse, [Some(100.0), Some(100.0), Some(100.0), Some(0.0), Some(0.0)]),
        (F::Both, D::AlternateReverse, [Some(100.0), Some(100.0), Some(0.0), Some(100.0), Some(100.0)]),
    ];

    for (fill_mode, direction, expected) in expected_values {
        let [expected_delay, expected_start, expected_start_2nd, expected_end_2nd, expected_finished] = expected;
        let mut animation = new_animation(&AnimationOptions {
            fill_mode,
            direction,
            initial_delay: ONE_SECOND,
            duration: ONE_SECOND,
            iteration_count: 2.into(),
            ..default_animation_options()
        });

        assert_eq!(animation.state, AnimationState::Pending);
        assert_eq!(animation.direction, direction);
        assert_eq!(animation.fill_mode, fill_mode);

        animation.tick(0);
        assert_eq!(animation.state, AnimationState::Pending);
        assert_eq!(sample_value(&animation), expected_delay, "Failed on delay for {fill_mode:?} / {direction:?}");
        assert_eq!(animation.is_active(), expected_delay.is_some());

        animation.tick(ONE_SECOND);
        assert_eq!(animation.state, AnimationState::Running);
        assert_eq!(animation.get_current_iteration(), 0);
        assert_eq!(sample_value(&animation), expected_start, "Failed on start 1st iter for {fill_mode:?} / {direction:?}");

        animation.tick(ONE_SECOND);
        assert_eq!(animation.state, AnimationState::Running);
        assert_eq!(animation.get_current_iteration(), 1);
        assert_eq!(sample_value(&animation), expected_start_2nd, "Failed on start 2nd iter for {fill_mode:?} / {direction:?}");

        animation.tick(ONE_SECOND);
        assert_eq!(animation.state, AnimationState::JustFinished);
        assert_eq!(animation.get_current_iteration(), 1);
        assert_eq!(sample_value(&animation), expected_end_2nd, "Failed on end 2nd iter for {fill_mode:?} / {direction:?}");

        animation.tick(ONE_SECOND);
        assert_eq!(animation.state, AnimationState::Finished);
        assert_eq!(sample_value(&animation), expected_finished, "Failed on finished for {fill_mode:?} / {direction:?}");
        assert_eq!(animation.is_active(), expected_finished.is_some());
    }
}

#[test]
fn paused_animation_ignores_ticks() {
    let mut animation = new_animation(&AnimationOptions {
        play_state: AnimationPlayState::Paused,
        initial_delay: HALF_SECOND,
        ..default_animation_options()
    });
    animation.tick(ONE_SECOND);
    assert_eq!(animation.state, AnimationState::Pending);
    assert_eq!(animation.total_elapsed(), 0);
}

#[test]
fn infinite_animation_keeps_counting_iterations() {
    let mut animation = new_animation(&AnimationOptions {
        iteration_count: IterationCount::Infinite,
        direction: AnimationDirection::Alternate,
        ..default_animation_options()
    });
    animation.tick(5 * ONE_SECOND + HALF_SECOND);
    assert_eq!(animation.state, AnimationState::Running);
    assert_eq!(animation.get_current_iteration(), 5);
    assert_eq!(animation.total_elapsed(), 5 * ONE_SECOND + HALF_SECOND);
    assert_eq!(sample_value(&animation), Some(50.0));
}
