use cssparser::{Parser, ParserInput};
use superui_flair::animations::animation::{
    Animation, AnimationDirection, AnimationFillMode, AnimationOptions, AnimationState, IterationCount,
};
use superui_flair::animations::easing::StepPosition;
use superui_flair::animations::properties::{
    AnimationProperty, AnimationPropertyId, AnimationSpecificValue, AnimationValues, TransitionPropertyId,
};
use superui_flair::css::animation_property::{
    animation_property_from_tokens, transition_property_from_tokens, values_fallback, ValuesFallback,
};
use superui_flair::css::error::{CssError, CssErrorKind, SourceLocation};
use superui_flair::css::font::{font_weight_from_token, parse_font_weight, FontWeight};
use superui_flair::css::font_face::font_source_from_read;
use superui_flair::css::font_face::FontFaceSource;
use superui_flair::css::input::{CssToken, SourceRead};
use superui_flair::css::shorthand::{AnimationShorthandToken, TransitionShorthandToken};
use superui_flair::css::values::{
    animation_direction_from_token, animation_name_from_token, iteration_count_from_token, steps_with_position,
};

const AT: SourceLocation = SourceLocation { line: 2, column: 5 };

fn with_parser<T>(css: &str, f: impl FnOnce(&mut Parser) -> T) -> T {
    let mut input = ParserInput::new(css);
    let mut parser = Parser::new(&mut input);
    f(&mut parser)
}

fn ident(s: &str) -> CssToken {
    CssToken::Ident(s.to_string())
}

fn token() -> AnimationShorthandToken<&'static str> {
    AnimationShorthandToken {
        duration: None,
        direction: None,
        fill_mode: None,
        iteration_count: None,
        play_state: None,
        timing_function: None,
        name: None,
    }
}

fn name_token(name: &str) -> AnimationShorthandToken<&'static str> {
    AnimationShorthandToken { name: Some(name.to_string()), ..token() }
}

#[test]
fn direction_tokens() {
    assert_eq!(animation_direction_from_token(&ident("Reverse"), AT), Ok(AnimationDirection::Reverse));
    assert_eq!(
        animation_direction_from_token(&ident("sideways"), AT),
        Err(CssError::new_located(CssErrorKind::InvalidAnimationDirection, AT))
    );
    assert_eq!(
        animation_direction_from_token(&CssToken::QuotedString("reverse".to_string()), AT),
        Err(CssError::new_located(CssErrorKind::UnexpectedToken, AT))
    );
}

#[test]
fn iteration_count_tokens() {
    assert_eq!(iteration_count_from_token(&ident("INFINITE"), AT), Ok(IterationCount::Infinite));
    assert_eq!(iteration_count_from_token(&CssToken::Number { int_value: Some(3) }, AT), Ok(IterationCount::Count(3)));
    assert_eq!(
        iteration_count_from_token(&CssToken::Number { int_value: Some(-1) }, AT),
        Err(CssError::new_located(CssErrorKind::InvalidIterationCount, AT))
    );
    assert_eq!(
        iteration_count_from_token(&CssToken::Comma, AT),
        Err(CssError::new_located(CssErrorKind::InvalidIterationCount, AT))
    );
}

#[test]
fn name_tokens() {
    assert_eq!(animation_name_from_token(&CssToken::QuotedString("slide".to_string()), AT), Ok("slide".to_string()));
    assert_eq!(
        animation_name_from_token(&CssToken::Number { int_value: Some(1) }, AT),
        Err(CssError::new_located(CssErrorKind::InvalidAnimationName, AT))
    );
}

#[test]
fn steps_default_to_end() {
    assert_eq!(steps_with_position(3, None), (3, StepPosition::End));
    assert_eq!(steps_with_position(3, Some(StepPosition::JumpNone)), (3, StepPosition::JumpNone));
}

#[test]
fn font_weights() {
    assert_eq!(font_weight_from_token(&ident("bold"), AT), Ok(FontWeight(700)));
    assert_eq!(font_weight_from_token(&ident("Normal"), AT), Ok(FontWeight(400)));
    assert_eq!(font_weight_from_token(&CssToken::Number { int_value: Some(300) }, AT), Ok(FontWeight(300)));
    assert_eq!(
        font_weight_from_token(&CssToken::Number { int_value: Some(1001) }, AT),
        Err(CssError::new_located(CssErrorKind::InvalidFontWeight, AT))
    );
    assert_eq!(
        font_weight_from_token(&ident("heavy"), AT),
        Err(CssError::new_located(CssErrorKind::InvalidFontWeight, AT))
    );
    assert_eq!(with_parser("  900", |p| parse_font_weight(p)), Ok(FontWeight(900)));
    assert_eq!(with_parser("12.5", |p| parse_font_weight(p)).unwrap_err().kind, CssErrorKind::InvalidFontWeight);
}

#[test]
fn font_sources() {
    assert_eq!(
        font_source_from_read(SourceRead::Token(CssToken::QuotedString("a.ttf".to_string())), AT),
        Ok(FontFaceSource::Path("a.ttf".to_string()))
    );
    assert_eq!(
        font_source_from_read(SourceRead::Function("URL".to_string(), Ok("b.ttf".to_string())), AT),
        Ok(FontFaceSource::Path("b.ttf".to_string()))
    );
    assert_eq!(
        font_source_from_read(SourceRead::Function("local".to_string(), Ok("Arial".to_string())), AT),
        Ok(FontFaceSource::Local("Arial".to_string()))
    );
    let inner = CssError::new_located(CssErrorKind::EndOfInput, SourceLocation { line: 0, column: 9 });
    assert_eq!(font_source_from_read(SourceRead::Function("local".to_string(), Err(inner)), AT), Err(inner));
    assert_eq!(
        font_source_from_read(SourceRead::Function("url".to_string(), Err(inner)), AT),
        Err(CssError::new_located(CssErrorKind::UnexpectedToken, AT))
    );
    assert_eq!(
        font_source_from_read(SourceRead::Token(ident("serif")), AT),
        Err(CssError::new_located(CssErrorKind::UnexpectedToken, AT))
    );
}

#[test]
fn animation_name_property_from_tokens() {
    let property = animation_property_from_tokens("animation-name", vec![vec![name_token("anim-1")], vec![name_token("anim-2")]], false);
    assert_eq!(
        property,
        Ok(AnimationProperty::new_specific_property(
            AnimationPropertyId::Name,
            vec![AnimationSpecificValue::Name("anim-1".to_string()), AnimationSpecificValue::Name("anim-2".to_string())]
        ))
    );
    let none = animation_property_from_tokens::<&str>("animation-name", vec![vec![name_token("none")]], true);
    assert_eq!(none, Ok(AnimationProperty::new_specific_property(AnimationPropertyId::Name, vec![])));
}

#[test]
fn animation_single_property_errors() {
    let bad = animation_property_from_tokens("animation-direction", vec![vec![name_token("sideways")]], false);
    assert_eq!(bad, Err(CssError::new_unlocated(CssErrorKind::InvalidAnimationDirection)));
    let two = AnimationShorthandToken { direction: Some(AnimationDirection::Reverse), ..token() };
    let too_many = animation_property_from_tokens("animation-direction", vec![vec![two, name_token("x")]], false);
    assert_eq!(too_many, Err(CssError::new_unlocated(CssErrorKind::InvalidAnimationDirection)));
    let unknown = animation_property_from_tokens::<&str>("animation-speed", vec![], false);
    assert_eq!(unknown, Err(CssError::new_unlocated(CssErrorKind::InvalidAnimationProperty)));
    let empty = animation_property_from_tokens::<&str>("animation-delay", vec![], false);
    assert_eq!(empty, Err(CssError::new_unlocated(CssErrorKind::EndOfInput)));
}

#[test]
fn animation_shorthand_from_tokens() {
    // `animation: 3s slide, 1s bounce reverse`
    let items = vec![
        vec![AnimationShorthandToken { duration: Some(3), ..token() }, name_token("slide")],
        vec![
            AnimationShorthandToken { duration: Some(1), ..token() },
            name_token("bounce"),
            AnimationShorthandToken { direction: Some(AnimationDirection::Reverse), name: Some("reverse".to_string()), ..token() },
        ],
    ];
    let property = animation_property_from_tokens("ANIMATION", items, false);
    assert_eq!(
        property,
        Ok(AnimationProperty::Shorthand(AnimationValues::Specific(vec![
            vec![
                (AnimationPropertyId::Duration, AnimationSpecificValue::Duration(3)),
                (AnimationPropertyId::Name, AnimationSpecificValue::Name("slide".to_string())),
            ],
            vec![
                (AnimationPropertyId::Duration, AnimationSpecificValue::Duration(1)),
                (AnimationPropertyId::Name, AnimationSpecificValue::Name("bounce".to_string())),
                (AnimationPropertyId::Direction, AnimationSpecificValue::Direction(AnimationDirection::Reverse)),
            ],
        ])))
    );
    // `animation: slide slide` leaves a token nothing takes
    let left_over = animation_property_from_tokens("animation", vec![vec![name_token("slide"), name_token("slide")]], false);
    assert_eq!(left_over, Err(CssError::new_unlocated(CssErrorKind::UnexpectedToken)));
}

#[test]
fn transition_property_from_tokens_reads_names() {
    let property = |name: &str| TransitionShorthandToken::<u8> {
        duration: None,
        timing_function: None,
        property_name: Some(name.to_string()),
    };
    assert_eq!(
        transition_property_from_tokens("transition-property", vec![vec![property("width")]], false),
        Ok(AnimationProperty::new_specific_property(
            TransitionPropertyId::PropertyName,
            vec![AnimationSpecificValue::Name("width".to_string())]
        ))
    );
    assert_eq!(
        transition_property_from_tokens::<u8>("transition-property", vec![vec![property("none")]], true),
        Ok(AnimationProperty::new_specific_property(TransitionPropertyId::PropertyName, vec![]))
    );
    assert_eq!(
        transition_property_from_tokens("transition-duration", vec![vec![property("width")]], false),
        Err(CssError::new_unlocated(CssErrorKind::InvalidDuration))
    );
    assert_eq!(
        transition_property_from_tokens::<u8>("transition-colour", vec![], false),
        Err(CssError::new_unlocated(CssErrorKind::InvalidTransitionProperty))
    );
}

#[test]
fn fallback_to_var_tokens() {
    assert_eq!(values_fallback(true, true), ValuesFallback::UseValues);
    assert_eq!(values_fallback(false, true), ValuesFallback::KeepVarTokens);
    assert_eq!(values_fallback(false, false), ValuesFallback::Fail);
}

const ONE_SECOND: u128 = 1_000_000_000;

#[test]
fn canceled_animation_emits_nothing() {
    let options = AnimationOptions {
        initial_delay: ONE_SECOND,
        duration: ONE_SECOND,
        fill_mode: AnimationFillMode::Backwards,
        ..AnimationOptions::default()
    };
    let mut animation = Animation::new("test".to_string(), &options);
    assert!(animation.sample_point().is_some());
    animation.cancel();
    assert_eq!(animation.state, AnimationState::Canceled);
    assert!(!animation.is_active());
    assert_eq!(animation.sample_point(), None);
    animation.tick(10 * ONE_SECOND);
    assert_eq!(animation.state, AnimationState::Canceled);
}

#[test]
fn pending_backwards_animation_samples_its_start() {
    let options = AnimationOptions { duration: ONE_SECOND, fill_mode: AnimationFillMode::Backwards, ..AnimationOptions::default() };
    let animation = Animation::new("test".to_string(), &options);
    assert_eq!(animation.state, AnimationState::Pending);
    assert!(animation.is_active());
    let point = animation.sample_point().unwrap();
    assert_eq!((point.numerator, point.denominator), (0, 1));
}
