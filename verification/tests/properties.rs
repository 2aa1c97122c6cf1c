use superui_flair::animations::animation::{
    AnimationDirection, AnimationFillMode, AnimationOptions, AnimationPlayState, IterationCount,
};
use superui_flair::animations::properties::{
    from_properties_to_animation_configuration, from_properties_to_transition_configuration, AnimationConfiguration,
    AnimationProperties, AnimationProperty, AnimationPropertyId, AnimationSpecificValue, AnimationValues,
    transition_options_by_property, PropertyValueMap, TransitionConfiguration, TransitionPropertyId,
};
use superui_flair::animations::transition::TransitionOptions;

const ONE_SECOND: u128 = 1_000_000_000;
const FIVE_SECONDS: u128 = 5_000_000_000;
const TEN_SECONDS: u128 = 10_000_000_000;

#[derive(Debug, Clone, PartialEq)]
enum Easing {
    Ease,
    EaseInOut,
}

impl Default for Easing {
    fn default() -> Self {
        Easing::Ease
    }
}

type Value = AnimationSpecificValue<Easing>;

fn as_animation_config(properties: AnimationProperties<AnimationPropertyId, Easing>) -> Vec<AnimationConfiguration<Easing>> {
    let mut output = PropertyValueMap::new(8);
    properties.resolve_to_output(&mut output);
    from_properties_to_animation_configuration(&output, &Easing::default())
}

fn as_transition_config(properties: AnimationProperties<TransitionPropertyId, Easing>) -> Vec<TransitionConfiguration<Easing>> {
    let mut output = PropertyValueMap::new(4);
    properties.resolve_to_output(&mut output);
    from_properties_to_transition_configuration(&output, &Easing::default())
}

fn config(name: &str, options: AnimationOptions) -> AnimationConfiguration<Easing> {
    AnimationConfiguration { name: name.to_string(), default_timing_function: Easing::default(), options }
}

fn name(n: &str) -> Value {
    AnimationSpecificValue::Name(n.to_string())
}

fn transition_options(initial_delay: u128, duration: u128, timing_function: Easing) -> TransitionOptions<Easing> {
    TransitionOptions { initial_delay, duration, timing_function }
}

#[test]
fn single_shorthand_animation() {
    let mut properties = AnimationProperties { properties: Vec::new() };
    properties.properties.push(AnimationProperty::new_shorthand_specific(vec![vec![
        (AnimationPropertyId::Name, name("test")),
        (AnimationPropertyId::Duration, AnimationSpecificValue::Duration(TEN_SECONDS)),
    ]]));
    assert_eq!(
        as_animation_config(properties),
        vec![config("test", AnimationOptions { duration: TEN_SECONDS, ..AnimationOptions::default() })]
    );
}

#[test]
fn two_shorthand_animations() {
    let mut properties = AnimationProperties { properties: Vec::new() };
    properties.properties.push(AnimationProperty::new_shorthand_specific(vec![
        vec![
            (AnimationPropertyId::Name, name("anim-1")),
            (AnimationPropertyId::Duration, AnimationSpecificValue::Duration(TEN_SECONDS)),
        ],
        vec![
            (AnimationPropertyId::Name, name("anim-2")),
            (AnimationPropertyId::Duration, AnimationSpecificValue::Duration(FIVE_SECONDS)),
            (AnimationPropertyId::Delay, AnimationSpecificValue::Duration(ONE_SECOND)),
            (AnimationPropertyId::Direction, AnimationSpecificValue::Direction(AnimationDirection::Alternate)),
        ],
    ]));
    assert_eq!(
        as_animation_config(properties),
        vec![
            config("anim-1", AnimationOptions { duration: TEN_SECONDS, ..AnimationOptions::default() }),
            config(
                "anim-2",
                AnimationOptions {
                    initial_delay: ONE_SECOND,
                    duration: FIVE_SECONDS,
                    direction: AnimationDirection::Alternate,
                    ..AnimationOptions::default()
                }
            ),
        ]
    );
}

#[test]
fn shorthand_animation_with_all_properties() {
    let mut properties = AnimationProperties { properties: Vec::new() };
    properties.properties.push(AnimationProperty::new_shorthand_specific(vec![vec![
        (AnimationPropertyId::Name, name("test")),
        (AnimationPropertyId::Duration, AnimationSpecificValue::Duration(TEN_SECONDS)),
        (AnimationPropertyId::Delay, AnimationSpecificValue::Duration(FIVE_SECONDS)),
        (AnimationPropertyId::Direction, AnimationSpecificValue::Direction(AnimationDirection::Alternate)),
        (AnimationPropertyId::FillMode, AnimationSpecificValue::FillMode(AnimationFillMode::Forwards)),
        (AnimationPropertyId::IterationCount, AnimationSpecificValue::IterationCount(2.into())),
        (AnimationPropertyId::PlayState, AnimationSpecificValue::PlayState(AnimationPlayState::Paused)),
        (AnimationPropertyId::TimingFunction, AnimationSpecificValue::TimingFunction(Easing::EaseInOut)),
    ]]));
    assert_eq!(
        as_animation_config(properties),
        vec![AnimationConfiguration {
            name: "test".to_string(),
            default_timing_function: Easing::EaseInOut,
            options: AnimationOptions {
                initial_delay: FIVE_SECONDS,
                duration: TEN_SECONDS,
                direction: AnimationDirection::Alternate,
                iteration_count: 2.into(),
                fill_mode: AnimationFillMode::Forwards,
                play_state: AnimationPlayState::Paused,
            },
        }]
    );
}

#[test]
fn shorthand_animation_without_name() {
    let mut properties = AnimationProperties { properties: Vec::new() };
    properties.properties.push(AnimationProperty::new_shorthand_specific(vec![
        vec![
            (AnimationPropertyId::Duration, AnimationSpecificValue::Duration(TEN_SECONDS)),
            (AnimationPropertyId::Direction, AnimationSpecificValue::Direction(AnimationDirection::Alternate)),
        ],
        vec![
            (AnimationPropertyId::Name, name("anim-1")),
            (AnimationPropertyId::Duration, AnimationSpecificValue::Duration(ONE_SECOND)),
        ],
        vec![
            (AnimationPropertyId::Name, name("anim-2")),
            (AnimationPropertyId::Duration, AnimationSpecificValue::Duration(FIVE_SECONDS)),
        ],
    ]));
    assert_eq!(
        as_animation_config(properties),
        vec![
            config("anim-1", AnimationOptions { duration: ONE_SECOND, ..AnimationOptions::default() }),
            config("anim-2", AnimationOptions { duration: FIVE_SECONDS, ..AnimationOptions::default() }),
        ]
    );
}

#[test]
fn single_property_overrides_shorthand() {
    let mut properties = AnimationProperties { properties: Vec::new() };
    properties.properties.push(AnimationProperty::new_shorthand_specific(vec![
        vec![
            (AnimationPropertyId::Name, name("anim-1")),
            (AnimationPropertyId::Duration, AnimationSpecificValue::Duration(ONE_SECOND)),
        ],
        vec![(AnimationPropertyId::Name, name("anim-2"))],
    ]));
    properties.properties.push(AnimationProperty::new_specific_property(
        AnimationPropertyId::Duration,
        vec![AnimationSpecificValue::Duration(FIVE_SECONDS)],
    ));
    assert_eq!(
        as_animation_config(properties),
        vec![
            config("anim-1", AnimationOptions { duration: FIVE_SECONDS, ..AnimationOptions::default() }),
            config("anim-2", AnimationOptions { duration: FIVE_SECONDS, ..AnimationOptions::default() }),
        ]
    );
}

#[test]
fn single_properties() {
    let mut properties = AnimationProperties { properties: Vec::new() };
    properties
        .properties
        .push(AnimationProperty::new_specific_property(AnimationPropertyId::Name, vec![name("anim-1"), name("anim-2")]));
    properties.properties.push(AnimationProperty::new_specific_property(
        AnimationPropertyId::Duration,
        vec![AnimationSpecificValue::Duration(FIVE_SECONDS)],
    ));
    properties.properties.push(AnimationProperty::new_specific_property(
        AnimationPropertyId::Delay,
        vec![
            AnimationSpecificValue::Duration(ONE_SECOND),
            AnimationSpecificValue::Duration(FIVE_SECONDS),
            AnimationSpecificValue::Duration(TEN_SECONDS),
        ],
    ));
    assert_eq!(
        as_animation_config(properties),
        vec![
            config(
                "anim-1",
                AnimationOptions { duration: FIVE_SECONDS, initial_delay: ONE_SECOND, ..AnimationOptions::default() }
            ),
            config(
                "anim-2",
                AnimationOptions { duration: FIVE_SECONDS, initial_delay: FIVE_SECONDS, ..AnimationOptions::default() }
            ),
        ]
    );
}

#[test]
fn animation_name_none() {
    let mut properties = AnimationProperties { properties: Vec::new() };
    properties.properties.push(AnimationProperty::new_specific_property(AnimationPropertyId::Name, Vec::new()));
    properties.properties.push(AnimationProperty::new_specific_property(
        AnimationPropertyId::Duration,
        vec![AnimationSpecificValue::Duration(FIVE_SECONDS)],
    ));
    assert_eq!(as_animation_config(properties), vec![]);
}

#[test]
fn all_single_animation_properties() {
    let mut properties = AnimationProperties { properties: Vec::new() };
    let single = |id: AnimationPropertyId, value: Value| AnimationProperty::new_specific_property(id, vec![value]);
    properties.properties.push(single(AnimationPropertyId::Name, name("test")));
    properties.properties.push(single(AnimationPropertyId::Duration, AnimationSpecificValue::Duration(TEN_SECONDS)));
    properties.properties.push(single(AnimationPropertyId::Delay, AnimationSpecificValue::Duration(FIVE_SECONDS)));
    properties
        .properties
        .push(single(AnimationPropertyId::Direction, AnimationSpecificValue::Direction(AnimationDirection::Alternate)));
    properties
        .properties
        .push(single(AnimationPropertyId::FillMode, AnimationSpecificValue::FillMode(AnimationFillMode::Forwards)));
    properties
        .properties
        .push(single(AnimationPropertyId::IterationCount, AnimationSpecificValue::IterationCount(2.into())));
    properties
        .properties
        .push(single(AnimationPropertyId::PlayState, AnimationSpecificValue::PlayState(AnimationPlayState::Paused)));
    properties
        .properties
        .push(single(AnimationPropertyId::TimingFunction, AnimationSpecificValue::TimingFunction(Easing::EaseInOut)));
    assert_eq!(
        as_animation_config(properties),
        vec![AnimationConfiguration {
            name: "test".to_string(),
            default_timing_function: Easing::EaseInOut,
            options: AnimationOptions {
                initial_delay: FIVE_SECONDS,
                duration: TEN_SECONDS,
                direction: AnimationDirection::Alternate,
                iteration_count: 2.into(),
                fill_mode: AnimationFillMode::Forwards,
                play_state: AnimationPlayState::Paused,
            },
        }]
    );
}

#[test]
fn two_shorthand_transitions() {
    let mut properties = AnimationProperties { properties: Vec::new() };
    properties.properties.push(AnimationProperty::new_shorthand_specific(vec![
        vec![
            (TransitionPropertyId::PropertyName, name("width")),
            (TransitionPropertyId::Duration, AnimationSpecificValue::Duration(TEN_SECONDS)),
        ],
        vec![
            (TransitionPropertyId::PropertyName, name("heigh")),
            (TransitionPropertyId::Duration, AnimationSpecificValue::Duration(FIVE_SECONDS)),
            (TransitionPropertyId::Delay, AnimationSpecificValue::Duration(ONE_SECOND)),
        ],
    ]));
    assert_eq!(
        as_transition_config(properties),
        vec![
            TransitionConfiguration {
                property_name: "width".to_string(),
                options: transition_options(0, TEN_SECONDS, Easing::default()),
            },
            TransitionConfiguration {
                property_name: "heigh".to_string(),
                options: transition_options(ONE_SECOND, FIVE_SECONDS, Easing::default()),
            },
        ]
    );
}

#[test]
fn all_single_transition_properties() {
    let mut properties = AnimationProperties { properties: Vec::new() };
    let single = |id: TransitionPropertyId, value: Value| AnimationProperty::new_specific_property(id, vec![value]);
    properties.properties.push(single(TransitionPropertyId::PropertyName, name("width")));
    properties.properties.push(single(TransitionPropertyId::Duration, AnimationSpecificValue::Duration(TEN_SECONDS)));
    properties.properties.push(single(TransitionPropertyId::Delay, AnimationSpecificValue::Duration(FIVE_SECONDS)));
    properties
        .properties
        .push(single(TransitionPropertyId::TimingFunction, AnimationSpecificValue::TimingFunction(Easing::EaseInOut)));
    assert_eq!(
        as_transition_config(properties),
        vec![TransitionConfiguration {
            property_name: "width".to_string(),
            options: transition_options(FIVE_SECONDS, TEN_SECONDS, Easing::EaseInOut),
        }]
    );
}

#[test]
fn invalid_shorthand_still_resets() {
    let mut properties = AnimationProperties { properties: Vec::new() };
    properties
        .properties
        .push(AnimationProperty::new_specific_property(AnimationPropertyId::Name, vec![name("anim-1")]));
    properties.properties.push(AnimationProperty::Shorthand(AnimationValues::Invalid));
    assert_eq!(as_animation_config(properties), vec![]);
}

#[test]
fn invalid_single_property_is_dropped() {
    let mut properties = AnimationProperties { properties: Vec::new() };
    properties
        .properties
        .push(AnimationProperty::new_specific_property(AnimationPropertyId::Name, vec![name("anim-1")]));
    properties.properties.push(AnimationProperty::SingleProperty {
        property_id: AnimationPropertyId::Duration,
        values: AnimationValues::Invalid,
    });
    assert_eq!(as_animation_config(properties), vec![config("anim-1", AnimationOptions::default())]);
}

#[test]
fn property_css_names() {
    assert_eq!(AnimationPropertyId::IterationCount.css_name(), "animation-iteration-count");
    assert_eq!(TransitionPropertyId::PropertyName.css_name(), "transition-property");
    let _ = IterationCount::Infinite;
}

#[test]
fn transition_options_spread_over_properties() {
    let options = |ms: u128| TransitionOptions { initial_delay: 0, duration: ms * 1_000_000, timing_function: Easing::EaseInOut };
    let configurations = vec![
        TransitionConfiguration { property_name: "width".to_string(), options: options(1) },
        TransitionConfiguration { property_name: "margin".to_string(), options: options(2) },
        TransitionConfiguration { property_name: "unknown".to_string(), options: options(3) },
    ];
    let resolved = vec![Some(vec![3]), Some(vec![5, 6]), None];
    let by_property = transition_options_by_property(&configurations, &resolved);
    assert_eq!(by_property, vec![(3, options(1)), (5, options(2)), (6, options(2))]);
}
