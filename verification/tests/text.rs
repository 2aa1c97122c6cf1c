use cssparser::{Parser, ParserInput};
use superui_flair::animations::animation::{AnimationDirection, AnimationFillMode, AnimationPlayState, IterationCount};
use superui_flair::animations::easing::{EasingKeyword, JumpPosition, StepPosition};
use superui_flair::css::error::CssErrorKind;
use superui_flair::css::font_face::{
    font_face_from_properties, parse_font_face_property, FontFace, FontFaceProperty, FontFaceSource,
};
use superui_flair::css::keywords::{
    animation_direction_from_ident, color_scheme_from_ident, easing_keyword_from_ident, eq_ignore_ascii_case,
    prefix_eq_ignore_ascii_case,
};
use superui_flair::css::values::{
    parse_animation_direction, parse_animation_fill_mode, parse_animation_name, parse_animation_play_state,
    parse_iteration_count, parse_property_name, parse_step_position, parse_string,
};
use superui_flair::pseudo_state::ColorScheme;
use superui_flair::animations::properties::{AnimationPropertyId, TransitionPropertyId};
use superui_flair::css::keywords::{animation_property_from_name, easing_function_from_name, transition_property_from_name};
use superui_flair::animations::easing::EasingFunctionName;
use superui_flair::css::values::{parse_color_scheme, parse_easing_steps_parameters};

fn with_parser<T>(css: &str, f: impl FnOnce(&mut Parser) -> T) -> T {
    let mut input = ParserInput::new(css);
    let mut parser = Parser::new(&mut input);
    f(&mut parser)
}

#[test]
fn string() {
    assert_eq!(with_parser("\"a\"", |p| parse_string(p)).unwrap(), "a".to_string());
}

#[test]
fn string_rejects_identifier() {
    let error = with_parser("a", |p| parse_string(p)).unwrap_err();
    assert_eq!(error.kind, CssErrorKind::UnexpectedToken);
}

#[test]
fn keywords_ignore_ascii_case() {
    assert!(eq_ignore_ascii_case("Alternate-REVERSE", "alternate-reverse"));
    assert!(!eq_ignore_ascii_case("alternate", "alternate-reverse"));
    assert!(prefix_eq_ignore_ascii_case("MIN-width", "min"));
    assert!(!prefix_eq_ignore_ascii_case("mi", "min"));
    assert_eq!(animation_direction_from_ident("Reverse"), Ok(AnimationDirection::Reverse));
    assert_eq!(animation_direction_from_ident("sideways"), Err(CssErrorKind::InvalidAnimationDirection));
    assert_eq!(easing_keyword_from_ident("ease-in-out"), Ok(EasingKeyword::EaseInOut));
    assert_eq!(easing_keyword_from_ident("bounce"), Err(CssErrorKind::InvalidEasingFunctionKeyword));
    assert_eq!(color_scheme_from_ident("DARK"), Ok(ColorScheme::Dark));
    assert_eq!(color_scheme_from_ident("blue"), Err(CssErrorKind::UnexpectedColorScheme));
}

#[test]
fn animation_keywords_from_css() {
    assert_eq!(with_parser("alternate", |p| parse_animation_direction(p)).unwrap(), AnimationDirection::Alternate);
    assert_eq!(with_parser("both", |p| parse_animation_fill_mode(p)).unwrap(), AnimationFillMode::Both);
    assert_eq!(with_parser("none", |p| parse_animation_fill_mode(p)).unwrap(), AnimationFillMode::NoFill);
    assert_eq!(with_parser("paused", |p| parse_animation_play_state(p)).unwrap(), AnimationPlayState::Paused);
    assert_eq!(with_parser("jump-both", |p| parse_step_position(p)).unwrap(), StepPosition::JumpBoth);
    assert_eq!(StepPosition::Start.jump_position(), JumpPosition::Start);
    assert_eq!(StepPosition::default(), StepPosition::End);
    let error = with_parser("sideways", |p| parse_animation_direction(p)).unwrap_err();
    assert_eq!(error.kind, CssErrorKind::InvalidAnimationDirection);
    assert!(error.location.is_some());
}

#[test]
fn iteration_count_from_css() {
    assert_eq!(with_parser("infinite", |p| parse_iteration_count(p)).unwrap(), IterationCount::Infinite);
    assert_eq!(with_parser("3", |p| parse_iteration_count(p)).unwrap(), IterationCount::Count(3));
    assert_eq!(with_parser("0", |p| parse_iteration_count(p)).unwrap(), IterationCount::Count(0));
    assert_eq!(with_parser("-1", |p| parse_iteration_count(p)).unwrap_err().kind, CssErrorKind::InvalidIterationCount);
    assert_eq!(with_parser("2.5", |p| parse_iteration_count(p)).unwrap_err().kind, CssErrorKind::InvalidIterationCount);
    assert_eq!(with_parser("forever", |p| parse_iteration_count(p)).unwrap_err().kind, CssErrorKind::InvalidIterationCount);
    assert_eq!(with_parser("", |p| parse_iteration_count(p)).unwrap_err().kind, CssErrorKind::EndOfInput);
}

#[test]
fn names_from_css() {
    assert_eq!(with_parser("slide", |p| parse_animation_name(p)).unwrap(), "slide");
    assert_eq!(with_parser("\"anim\"", |p| parse_animation_name(p)).unwrap(), "anim");
    assert_eq!(with_parser("3s", |p| parse_animation_name(p)).unwrap_err().kind, CssErrorKind::InvalidAnimationName);
    assert_eq!(with_parser("width", |p| parse_property_name(p)).unwrap(), "width");
    assert_eq!(
        with_parser("\"width\"", |p| parse_property_name(p)).unwrap_err().kind,
        CssErrorKind::InvalidTransitionPropertyName
    );
}

fn font_face(declarations: &[(&str, &str)]) -> Result<FontFace, superui_flair::css::error::CssError> {
    let properties: Vec<FontFaceProperty> = declarations
        .iter()
        .map(|(name, value)| with_parser(value, |p| parse_font_face_property(name, p)))
        .collect();
    font_face_from_properties(properties)
}

#[test]
fn with_url() {
    let face = font_face(&[("font-family", "\"Poppings\""), ("src", "url(\"Poppings-Regular.ttf\")")]).unwrap();
    assert!(face.errors.is_empty());
    assert_eq!(face.family_name, "Poppings");
    assert_eq!(face.source, FontFaceSource::Path("Poppings-Regular.ttf".into()));
}

#[test]
fn with_source_string() {
    let face = font_face(&[("font-family", "\"Poppings\""), ("src", "\"Poppings-Regular.ttf\"")]).unwrap();
    assert!(face.errors.is_empty());
    assert_eq!(face.family_name, "Poppings");
    assert_eq!(face.source, FontFaceSource::Path("Poppings-Regular.ttf".into()));
}

#[test]
fn with_local() {
    let face = font_face(&[("font-family", "\"Helvetica\""), ("src", "local(\"Helvetica\")")]).unwrap();
    assert!(face.errors.is_empty());
    assert_eq!(face.family_name, "Helvetica");
    assert_eq!(face.source, FontFaceSource::Local("Helvetica".into()));
}

#[test]
fn font_face_needs_family_and_source() {
    let error = font_face(&[("font-family", "\"Helvetica\"")]).unwrap_err();
    assert_eq!(error.kind, CssErrorKind::IncompleteFontFaceRule);
    assert_eq!(error.location, None);
}

#[test]
fn font_face_keeps_errors_and_last_values() {
    let face = font_face(&[
        ("font-family", "\"First\""),
        ("font-weight", "bold"),
        ("src", "12"),
        ("src", "\"a.ttf\""),
        ("font-family", "\"Second\""),
    ])
    .unwrap();
    assert_eq!(face.family_name, "Second");
    assert_eq!(face.source, FontFaceSource::Path("a.ttf".into()));
    assert_eq!(face.errors.len(), 2);
    assert_eq!(face.errors[0].kind, CssErrorKind::UnexpectedFontFaceProperty);
    assert_eq!(face.errors[1].kind, CssErrorKind::UnexpectedToken);
}

#[test]
fn into_parse_result_splits_errors() {
    let error = FontFaceProperty::Error(superui_flair::css::error::CssError::new_unlocated(CssErrorKind::UnexpectedToken));
    assert!(error.into_parse_result().is_err());
    assert!(matches!(
        FontFaceProperty::FamilyName("a".into()).into_parse_result(),
        Ok(FontFaceProperty::FamilyName(_))
    ));
}

#[test]
fn property_names_dispatch() {
    assert_eq!(animation_property_from_name("animation"), Ok(None));
    assert_eq!(animation_property_from_name("Animation-Duration"), Ok(Some(AnimationPropertyId::Duration)));
    assert_eq!(animation_property_from_name("animation-timing-function"), Ok(Some(AnimationPropertyId::TimingFunction)));
    assert_eq!(animation_property_from_name("animation-delays"), Err(CssErrorKind::InvalidAnimationProperty));
    assert_eq!(transition_property_from_name("transition"), Ok(None));
    assert_eq!(transition_property_from_name("TRANSITION-PROPERTY"), Ok(Some(TransitionPropertyId::PropertyName)));
    assert_eq!(transition_property_from_name("transition-name"), Err(CssErrorKind::InvalidTransitionProperty));
}

#[test]
fn easing_function_names() {
    assert_eq!(easing_function_from_name("Steps"), Ok(EasingFunctionName::Steps));
    assert_eq!(easing_function_from_name("cubic-bezier"), Ok(EasingFunctionName::CubicBezier));
    assert_eq!(easing_function_from_name("linear"), Ok(EasingFunctionName::Linear));
    assert_eq!(easing_function_from_name("ease"), Err(CssErrorKind::InvalidEasingFunctionName));
}

#[test]
fn steps_parameters_from_css() {
    assert_eq!(with_parser("4", |p| parse_easing_steps_parameters(p)), Ok((4, StepPosition::End)));
    assert_eq!(with_parser("2, jump-both", |p| parse_easing_steps_parameters(p)), Ok((2, StepPosition::JumpBoth)));
    let error = with_parser("2, sideways", |p| parse_easing_steps_parameters(p)).unwrap_err();
    assert_eq!(error.kind, CssErrorKind::InvalidStepPosition);
    assert!(with_parser("2 jump-both", |p| parse_easing_steps_parameters(p)).is_err());
}

#[test]
fn color_scheme_from_css() {
    assert_eq!(with_parser("Dark", |p| parse_color_scheme(p)), Ok(ColorScheme::Dark));
    assert_eq!(with_parser("light", |p| parse_color_scheme(p)), Ok(ColorScheme::Light));
    let error = with_parser("dim", |p| parse_color_scheme(p)).unwrap_err();
    assert_eq!(error.kind, CssErrorKind::UnexpectedColorScheme);
}
