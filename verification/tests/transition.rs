use superui_flair::animations::transition::{Transition, TransitionOptions, TransitionPoint, TransitionState};

const ONE_SECOND: u128 = 1_000_000_000;
const HALF_SECOND: u128 = 500_000_000;

/// A linear transition from 0 to 10: the value where the transition stands.
fn sample_value(transition: &Transition) -> Option<f32> {
    match transition.sample_point() {
        TransitionPoint::Start => Some(0.0),
        TransitionPoint::Progress { elapsed, duration } => {
            let t = elapsed as f32 / duration as f32;
            if t.is_nan() {
                None
            } else {
                Some(10.0 * t.clamp(0.0, 1.0))
            }
        }
    }
}

fn elapsed_secs(transition: &Transition) -> f32 {
    transition.elapsed() as f32 / ONE_SECOND as f32
}

#[test]
fn basic_transition() {
    let options = TransitionOptions { initial_delay: 0, duration: ONE_SECOND, timing_function: () };
    let mut transition = Transition::new(&options);

    assert_eq!(transition.state, TransitionState::Pending);
    assert_eq!(transition.initial_delay, 0);
    assert_eq!(transition.duration, ONE_SECOND);
    assert_eq!(elapsed_secs(&transition), 0.0);
    assert_eq!(sample_value(&transition), Some(0.0));

    transition.tick(0);
    assert_eq!(transition.state, TransitionState::Running);
    assert_eq!(sample_value(&transition), Some(0.0));
    assert_eq!(elapsed_secs(&transition), 0.0);

    transition.tick(HALF_SECOND);
    assert_eq!(transition.state, TransitionState::Running);
    assert_eq!(sample_value(&transition), Some(5.0));
    assert_eq!(elapsed_secs(&transition), 0.5);

    transition.tick(HALF_SECOND);
    assert_eq!(transition.state, TransitionState::Finished);
    assert_eq!(sample_value(&transition), Some(10.0));
    assert_eq!(elapsed_secs(&transition), 1.0);
}

#[test]
fn zero_transition() {
    let options = TransitionOptions { initial_delay: 0, duration: 0, timing_function: () };
    let mut transition = Transition::new(&options);

    assert_eq!(transition.state, TransitionState::Pending);
    assert_eq!(transition.initial_delay, 0);
    assert_eq!(transition.duration, 0);
    assert_eq!(sample_value(&transition), Some(0.0));

    transition.tick(0);
    assert_eq!(transition.state, TransitionState::Finished);
    assert_eq!(sample_value(&transition), None);
}

#[test]
fn transition_waits_for_its_delay() {
    let options = TransitionOptions { initial_delay: ONE_SECOND, duration: ONE_SECOND, timing_function: () };
    let mut transition = Transition::new(&options);
    transition.tick(HALF_SECOND);
    assert_eq!(transition.state, TransitionState::Pending);
    assert_eq!(transition.sample_point(), TransitionPoint::Start);
    assert_eq!(transition.elapsed(), 0);
    transition.tick(ONE_SECOND);
    assert_eq!(transition.state, TransitionState::Running);
    assert_eq!(transition.elapsed(), HALF_SECOND);
    transition.tick(10 * ONE_SECOND);
    assert_eq!(transition.state, TransitionState::Finished);
    assert_eq!(transition.elapsed(), ONE_SECOND);
    transition.tick(ONE_SECOND);
    assert_eq!(transition.elapsed(), ONE_SECOND);
}
