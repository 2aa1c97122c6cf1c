use superui_flair::animations::animation::{AnimationOptions, AnimationPlayState};
use superui_flair::animations::properties::AnimationConfiguration;
use superui_flair::animations::transition::{Transition, TransitionOptions, TransitionState};
use superui_flair::components::runtime::{
    AnimationEvent, AnimationEventType, StyleAnimations, TransitionEvent, TransitionEventType,
};

const ONE_SECOND: u128 = 1_000_000_000;
const TWO_SECONDS: u128 = 2_000_000_000;
const PROPERTY_1: usize = 1;

fn new_properties() -> StyleAnimations<()> {
    StyleAnimations::new()
}

fn default_animation_options() -> AnimationOptions {
    AnimationOptions { duration: ONE_SECOND, ..AnimationOptions::default() }
}

fn configuration(name: &str, options: AnimationOptions) -> AnimationConfiguration<()> {
    AnimationConfiguration { name: name.to_string(), default_timing_function: (), options }
}

/// The keyframes of every test animation animate one property.
fn resolved_for(configs: &[AnimationConfiguration<()>]) -> Vec<Option<Vec<usize>>> {
    configs.iter().map(|_| Some(vec![PROPERTY_1])).collect()
}

fn set_animations(properties: &mut StyleAnimations<()>, configs: Vec<AnimationConfiguration<()>>) {
    let resolved = resolved_for(&configs);
    properties.set_animations(configs, resolved);
}

fn event(event_type: AnimationEventType, name: &str) -> AnimationEvent {
    AnimationEvent { event_type, name: name.to_string(), property_id: PROPERTY_1 }
}

fn take_animation_events(properties: &mut StyleAnimations<()>) -> Vec<AnimationEvent> {
    properties.take_pending_events().1
}

#[test]
fn change_animations_cancels_animations() {
    let mut properties = new_properties();
    let animation = configuration("animation", default_animation_options());

    set_animations(&mut properties, vec![animation.clone()]);

    assert!(!properties.has_active_animations_or_transitions());
    assert_eq!(properties.active_animations().len(), 0);

    properties.tick_animations(0);

    assert!(properties.has_active_animations_or_transitions());
    assert_eq!(properties.active_animations().len(), 1);

    assert_eq!(take_animation_events(&mut properties), vec![event(AnimationEventType::Started, "animation")]);

    set_animations(&mut properties, vec![]);

    assert_eq!(take_animation_events(&mut properties), vec![event(AnimationEventType::Canceled, "animation")]);
}

#[test]
fn animations_are_not_restarted() {
    let mut properties = new_properties();
    let animation = configuration("animation", default_animation_options());

    set_animations(&mut properties, vec![animation.clone()]);
    properties.tick_animations(0);

    assert_eq!(take_animation_events(&mut properties), vec![event(AnimationEventType::Started, "animation")]);

    properties.tick_animations(TWO_SECONDS);

    assert_eq!(take_animation_events(&mut properties), vec![event(AnimationEventType::Finished, "animation")]);

    properties.clear_finished_and_canceled_animations();
    set_animations(&mut properties, vec![animation.clone()]);
    properties.tick_animations(0);

    assert_eq!(take_animation_events(&mut properties), vec![]);
}

#[test]
fn consecutive_animations_on_same_property() {
    let mut properties = new_properties();
    let initial_animation = configuration("initial_animation", default_animation_options());

    set_animations(&mut properties, vec![initial_animation.clone()]);
    properties.tick_animations(0);

    assert!(properties.has_active_animations_or_transitions());
    assert_eq!(properties.active_animations().len(), 1);
    assert_eq!(
        take_animation_events(&mut properties),
        vec![event(AnimationEventType::Started, "initial_animation")]
    );

    let animation_with_delay = configuration(
        "animation_with_delay",
        AnimationOptions { initial_delay: ONE_SECOND, duration: ONE_SECOND, ..AnimationOptions::default() },
    );

    set_animations(&mut properties, vec![initial_animation.clone(), animation_with_delay.clone()]);
    properties.tick_animations(0);

    assert_eq!(properties.active_animations().len(), 1);
    assert_eq!(
        take_animation_events(&mut properties),
        vec![event(AnimationEventType::Started, "initial_animation")]
    );

    properties.tick_animations(ONE_SECOND);

    // The first animation, though finished, stays active until the next tick.
    assert_eq!(properties.active_animations().len(), 2);
    assert_eq!(
        take_animation_events(&mut properties),
        vec![
            event(AnimationEventType::Finished, "initial_animation"),
            event(AnimationEventType::Started, "animation_with_delay"),
        ]
    );
}

#[test]
fn animation_without_keyframes_creates_nothing() {
    let mut properties = new_properties();
    properties.set_animations(vec![configuration("missing", default_animation_options())], vec![None]);
    assert_eq!(properties.animations.len(), 1);
    assert_eq!(properties.animations[0].0, "missing");
    assert!(properties.animations[0].1.is_empty());
    properties.tick_animations(0);
    assert!(!properties.has_pending_events());
}

#[test]
fn paused_animation_is_not_tickable() {
    let mut properties = new_properties();
    let paused = configuration(
        "paused",
        AnimationOptions { play_state: AnimationPlayState::Paused, ..default_animation_options() },
    );
    set_animations(&mut properties, vec![paused]);
    assert!(!properties.has_tickable_animations_or_transitions());

    set_animations(&mut properties, vec![configuration("paused", default_animation_options())]);
    assert!(properties.has_tickable_animations_or_transitions());
    assert_eq!(properties.current_animation_configs.len(), 1);
}

#[test]
fn dropping_transition_options_cancels_the_transition() {
    let mut properties = new_properties();
    let options = TransitionOptions { initial_delay: 0, duration: ONE_SECOND, timing_function: () };
    properties.set_transition_options(vec![(PROPERTY_1, options.clone()), (2, options.clone())]);
    properties.transitions.push((PROPERTY_1, Transition::new(&options)));
    properties.transitions.push((2, Transition::new(&options)));

    properties.tick_animations(0);
    assert_eq!(properties.active_transitions().len(), 2);
    let (transition_events, _) = properties.take_pending_events();
    assert_eq!(
        transition_events,
        vec![
            TransitionEvent { event_type: TransitionEventType::Started, property_id: PROPERTY_1 },
            TransitionEvent { event_type: TransitionEventType::Started, property_id: 2 },
        ]
    );

    properties.set_transition_options(vec![(2, options.clone())]);
    assert_eq!(properties.transitions[0].1.state, TransitionState::Canceled);
    assert_eq!(properties.transitions[1].1.state, TransitionState::Running);
    assert_eq!(properties.active_transitions().len(), 1);
    let (transition_events, _) = properties.take_pending_events();
    assert_eq!(
        transition_events,
        vec![TransitionEvent { event_type: TransitionEventType::Canceled, property_id: PROPERTY_1 }]
    );

    properties.clear_finished_and_canceled_animations();
    assert_eq!(properties.transitions.len(), 1);
    assert_eq!(properties.transitions[0].0, 2);
}

#[test]
fn reset_drops_everything() {
    let mut properties = new_properties();
    set_animations(&mut properties, vec![configuration("animation", default_animation_options())]);
    properties.tick_animations(0);
    assert!(properties.has_pending_events());
    properties.reset();
    assert!(!properties.has_pending_events());
    assert!(properties.animations.is_empty());
    assert!(properties.current_animation_configs.is_empty());
    assert!(!properties.has_active_animations_or_transitions());
}

#[test]
fn changed_values_start_and_replace_transitions() {
    let mut properties = new_properties();
    let options = TransitionOptions { initial_delay: 0, duration: ONE_SECOND, timing_function: () };
    properties.set_transition_options(vec![(PROPERTY_1, options.clone())]);

    // A property without transition options starts nothing.
    properties.create_transitions(&vec![2]);
    assert!(properties.transitions.is_empty());

    properties.create_transitions(&vec![PROPERTY_1, 2]);
    assert_eq!(properties.transitions.len(), 1);
    assert_eq!(properties.transitions[0].0, PROPERTY_1);
    assert_eq!(properties.transitions[0].1.state, TransitionState::Pending);
    assert!(!properties.has_pending_events());

    properties.tick_animations(ONE_SECOND / 2);
    let (transition_events, _) = properties.take_pending_events();
    assert_eq!(
        transition_events,
        vec![TransitionEvent { event_type: TransitionEventType::Started, property_id: PROPERTY_1 }]
    );

    properties.create_transitions(&vec![PROPERTY_1]);
    assert_eq!(properties.transitions.len(), 1);
    assert_eq!(properties.transitions[0].1.state, TransitionState::Pending);
    assert_eq!(properties.transitions[0].1.elapsed(), 0);
    let (transition_events, _) = properties.take_pending_events();
    assert_eq!(
        transition_events,
        vec![TransitionEvent { event_type: TransitionEventType::Replaced, property_id: PROPERTY_1 }]
    );
}
