//! Values of animation and transition properties read from CSS input.

use vstd::prelude::*;
use crate::animations::animation::{AnimationDirection, AnimationFillMode, AnimationPlayState, IterationCount};
use crate::animations::easing::StepPosition;
use crate::css::error::{CssError, CssErrorKind, SourceLocation};
use crate::pseudo_state::ColorScheme;
use crate::css::input::{current_location, is_exhausted, next_token, tokenizer_error, CssToken};
use crate::css::keywords::{lemma_color_scheme_keywords, lemma_direction_keywords, lemma_fill_mode_keywords,
    lemma_play_state_keywords, animation_direction_from_ident, animation_direction_keyword, animation_fill_mode_from_ident,
    animation_fill_mode_keyword, animation_play_state_from_ident, animation_play_state_keyword, color_scheme_from_ident,
    color_scheme_keyword, eq_ignore_ascii_case, eq_ignore_ascii_case_spec, step_position_from_ident, step_position_keyword};

verus! {

/// A keyword result, its error placed at `location`.
pub open spec fn located<T>(r: Result<T, CssErrorKind>, location: SourceLocation) -> Result<T, CssError> {
    match r {
        Ok(v) => Ok(v),
        Err(kind) => Err(CssError { kind, location: Some(location) }),
    }
}

fn locate<T>(r: Result<T, CssErrorKind>, location: SourceLocation) -> (out: Result<T, CssError>)
    ensures
        out == located(r, location),
{
    match r {
        Ok(v) => Ok(v),
        Err(kind) => Err(CssError::new_located(kind, location)),
    }
}

/// The value a keyword names, or the error `kind`.
pub open spec fn keyword_or<T>(k: Option<T>, kind: CssErrorKind) -> Result<T, CssErrorKind> {
    match k {
        Some(v) => Ok(v),
        None => Err(kind),
    }
}

/// The error of a token that does not fit, at `location`.
pub open spec fn unexpected(location: SourceLocation) -> CssError {
    CssError { kind: CssErrorKind::UnexpectedToken, location: Some(location) }
}

/// What a token at `location` gives as a keyword of `keyword`: an
/// identifier is looked up, and its error is `kind`; any other token does
/// not fit.
pub open spec fn keyword_token<T>(t: CssToken, keyword: spec_fn(Seq<char>) -> Option<T>, kind: CssErrorKind, location: SourceLocation) -> Result<T, CssError> {
    match t {
        CssToken::Ident(s) => located(keyword_or(keyword(s@), kind), location),
        _ => Err(unexpected(location)),
    }
}

/// A quoted string, from the token at `location`.
pub fn string_from_token(t: &CssToken, location: SourceLocation) -> (r: Result<String, CssError>)
    ensures
        r == match *t {
            CssToken::QuotedString(s) => Ok::<String, CssError>(s),
            _ => Err(unexpected(location)),
        },
{
    match t {
        CssToken::QuotedString(s) => Ok(s.clone()),
        _ => Err(CssError::new_located(CssErrorKind::UnexpectedToken, location)),
    }
}

/// An `animation-direction`, from the token at `location`.
pub fn animation_direction_from_token(t: &CssToken, location: SourceLocation) -> (r: Result<AnimationDirection, CssError>)
    ensures
        r == keyword_token(*t, |s: Seq<char>| animation_direction_keyword(s), CssErrorKind::InvalidAnimationDirection, location),
{
    match t {
        CssToken::Ident(s) => locate(animation_direction_from_ident(s.as_str()), location),
        _ => Err(CssError::new_located(CssErrorKind::UnexpectedToken, location)),
    }
}

/// An `animation-fill-mode`, from the token at `location`.
pub fn animation_fill_mode_from_token(t: &CssToken, location: SourceLocation) -> (r: Result<AnimationFillMode, CssError>)
    ensures
        r == keyword_token(*t, |s: Seq<char>| animation_fill_mode_keyword(s), CssErrorKind::InvalidAnimationFillMode, location),
{
    match t {
        CssToken::Ident(s) => locate(animation_fill_mode_from_ident(s.as_str()), location),
        _ => Err(CssError::new_located(CssErrorKind::UnexpectedToken, location)),
    }
}

/// An `animation-play-state`, from the token at `location`.
pub fn animation_play_state_from_token(t: &CssToken, location: SourceLocation) -> (r: Result<AnimationPlayState, CssError>)
    ensures
        r == keyword_token(*t, |s: Seq<char>| animation_play_state_keyword(s), CssErrorKind::InvalidAnimationPlayState, location),
{
    match t {
        CssToken::Ident(s) => locate(animation_play_state_from_ident(s.as_str()), location),
        _ => Err(CssError::new_located(CssErrorKind::UnexpectedToken, location)),
    }
}

/// The position argument of `steps()`, from the token at `location`.
pub fn step_position_from_token(t: &CssToken, location: SourceLocation) -> (r: Result<StepPosition, CssError>)
    ensures
        r == keyword_token(*t, |s: Seq<char>| step_position_keyword(s), CssErrorKind::InvalidStepPosition, location),
{
    match t {
        CssToken::Ident(s) => locate(step_position_from_ident(s.as_str()), location),
        _ => Err(CssError::new_located(CssErrorKind::UnexpectedToken, location)),
    }
}

/// A `prefers-color-scheme` value, from the token at `location`.
pub fn color_scheme_from_token(t: &CssToken, location: SourceLocation) -> (r: Result<ColorScheme, CssError>)
    ensures
        r == keyword_token(*t, |s: Seq<char>| color_scheme_keyword(s), CssErrorKind::UnexpectedColorScheme, location),
{
    match t {
        CssToken::Ident(s) => locate(color_scheme_from_ident(s.as_str()), location),
        _ => Err(CssError::new_located(CssErrorKind::UnexpectedToken, location)),
    }
}

/// The iteration count an identifier gives: only `infinite`.
pub fn iteration_count_from_ident(ident: &str) -> (r: Result<IterationCount, CssErrorKind>)
    ensures
        r == if eq_ignore_ascii_case_spec(ident@, "infinite"@) {
            Ok::<IterationCount, CssErrorKind>(IterationCount::Infinite)
        } else {
            Err(CssErrorKind::InvalidIterationCount)
        },
{
    if eq_ignore_ascii_case(ident, "infinite") {
        Ok(IterationCount::Infinite)
    } else {
        Err(CssErrorKind::InvalidIterationCount)
    }
}

/// The iteration count a whole number gives: a count when it is not negative.
pub fn iteration_count_from_integer(value: i32) -> (r: Result<IterationCount, CssErrorKind>)
    ensures
        r == if value >= 0 {
            Ok::<IterationCount, CssErrorKind>(IterationCount::Count(value as u32))
        } else {
            Err(CssErrorKind::InvalidIterationCount)
        },
{
    if value >= 0 {
        Ok(IterationCount::Count(value as u32))
    } else {
        Err(CssErrorKind::InvalidIterationCount)
    }
}

/// The iteration count a token at `location` gives: `infinite`, or a whole
/// number that is not negative.
pub open spec fn iteration_count_token(t: CssToken, location: SourceLocation) -> Result<IterationCount, CssError> {
    match t {
        CssToken::Ident(s) => located(
            if eq_ignore_ascii_case_spec(s@, "infinite"@) { Ok(IterationCount::Infinite) } else { Err(CssErrorKind::InvalidIterationCount) },
            location),
        CssToken::Number { int_value: Some(v) } => located(
            if v >= 0 { Ok(IterationCount::Count(v as u32)) } else { Err(CssErrorKind::InvalidIterationCount) },
            location),
        _ => Err(CssError { kind: CssErrorKind::InvalidIterationCount, location: Some(location) }),
    }
}

/// An `animation-iteration-count`, from the token at `location`.
pub fn iteration_count_from_token(t: &CssToken, location: SourceLocation) -> (r: Result<IterationCount, CssError>)
    ensures
        r == iteration_count_token(*t, location),
{
    match t {
        CssToken::Ident(s) => locate(iteration_count_from_ident(s.as_str()), location),
        CssToken::Number { int_value: Some(v) } => locate(iteration_count_from_integer(*v), location),
        _ => Err(CssError::new_located(CssErrorKind::InvalidIterationCount, location)),
    }
}

/// An animation name, from the token at `location`: an identifier or a quoted string.
pub fn animation_name_from_token(t: &CssToken, location: SourceLocation) -> (r: Result<String, CssError>)
    ensures
        r == match *t {
            CssToken::Ident(s) => Ok::<String, CssError>(s),
            CssToken::QuotedString(s) => Ok::<String, CssError>(s),
            _ => Err(CssError { kind: CssErrorKind::InvalidAnimationName, location: Some(location) }),
        },
{
    match t {
        CssToken::Ident(s) => Ok(s.clone()),
        CssToken::QuotedString(s) => Ok(s.clone()),
        _ => Err(CssError::new_located(CssErrorKind::InvalidAnimationName, location)),
    }
}

/// A transitioned property name, from the token at `location`: an identifier.
pub fn property_name_from_token(t: &CssToken, location: SourceLocation) -> (r: Result<String, CssError>)
    ensures
        r == match *t {
            CssToken::Ident(s) => Ok::<String, CssError>(s),
            _ => Err(CssError { kind: CssErrorKind::InvalidTransitionPropertyName, location: Some(location) }),
        },
{
    match t {
        CssToken::Ident(s) => Ok(s.clone()),
        _ => Err(CssError::new_located(CssErrorKind::InvalidTransitionPropertyName, location)),
    }
}

/// A whole number, from the token at `location`.
pub fn integer_from_token(t: &CssToken, location: SourceLocation) -> (r: Result<i32, CssError>)
    ensures
        r == match *t {
            CssToken::Number { int_value: Some(v) } => Ok::<i32, CssError>(v),
            _ => Err(unexpected(location)),
        },
{
    match t {
        CssToken::Number { int_value: Some(v) } => Ok(*v),
        _ => Err(CssError::new_located(CssErrorKind::UnexpectedToken, location)),
    }
}

/// A comma, from the token at `location`.
pub fn comma_from_token(t: &CssToken, location: SourceLocation) -> (r: Result<(), CssError>)
    ensures
        r == match *t {
            CssToken::Comma => Ok::<(), CssError>(()),
            _ => Err(unexpected(location)),
        },
{
    match t {
        CssToken::Comma => Ok(()),
        _ => Err(CssError::new_located(CssErrorKind::UnexpectedToken, location)),
    }
}

/// The arguments of `steps()` once read: the number of steps, and the
/// position when one follows; `end` when none does.
pub fn steps_with_position(steps: i32, position: Option<StepPosition>) -> (r: (i32, StepPosition))
    ensures
        r == (steps, match position {
            Some(p) => p,
            None => StepPosition::End,
        }),
{
    match position {
        Some(p) => (steps, p),
        None => (steps, StepPosition::End),
    }
}

/// Reads a quoted string.
pub fn parse_string(parser: &mut cssparser::Parser) -> (r: Result<String, CssError>)
    ensures
        r matches Err(e) ==> tokenizer_error(e),
{
    let location = current_location(parser);
    let token = next_token(parser)?;
    string_from_token(&token, location)
}

/// Reads `animation-direction`.
pub fn parse_animation_direction(parser: &mut cssparser::Parser) -> (r: Result<AnimationDirection, CssError>)
    ensures
        r matches Err(e) ==> tokenizer_error(e) || (e.kind == CssErrorKind::InvalidAnimationDirection && e.location is Some),
{
    let location = current_location(parser);
    let token = next_token(parser)?;
    animation_direction_from_token(&token, location)
}

/// Reads `animation-fill-mode`.
pub fn parse_animation_fill_mode(parser: &mut cssparser::Parser) -> (r: Result<AnimationFillMode, CssError>)
    ensures
        r matches Err(e) ==> tokenizer_error(e) || (e.kind == CssErrorKind::InvalidAnimationFillMode && e.location is Some),
{
    let location = current_location(parser);
    let token = next_token(parser)?;
    animation_fill_mode_from_token(&token, location)
}

/// Reads `animation-play-state`.
pub fn parse_animation_play_state(parser: &mut cssparser::Parser) -> (r: Result<AnimationPlayState, CssError>)
    ensures
        r matches Err(e) ==> tokenizer_error(e) || (e.kind == CssErrorKind::InvalidAnimationPlayState && e.location is Some),
{
    let location = current_location(parser);
    let token = next_token(parser)?;
    animation_play_state_from_token(&token, location)
}

/// Reads the position argument of `steps()`.
pub fn parse_step_position(parser: &mut cssparser::Parser) -> (r: Result<StepPosition, CssError>)
    ensures
        r matches Err(e) ==> tokenizer_error(e) || (e.kind == CssErrorKind::InvalidStepPosition && e.location is Some),
{
    let location = current_location(parser);
    let token = next_token(parser)?;
    step_position_from_token(&token, location)
}

/// Reads `animation-iteration-count`: `infinite` or a whole number that is not negative.
pub fn parse_iteration_count(parser: &mut cssparser::Parser) -> (r: Result<IterationCount, CssError>)
    ensures
        r matches Ok(IterationCount::Count(n)) ==> n <= i32::MAX,
        r matches Err(e) ==> e.location is Some && (e.kind == CssErrorKind::InvalidIterationCount
            || e.kind == CssErrorKind::UnexpectedToken || e.kind == CssErrorKind::EndOfInput || e.kind == CssErrorKind::InvalidInput),
{
    let location = current_location(parser);
    let token = next_token(parser)?;
    iteration_count_from_token(&token, location)
}

/// Reads an animation name: an identifier or a quoted string.
pub fn parse_animation_name(parser: &mut cssparser::Parser) -> (r: Result<String, CssError>)
    ensures
        r matches Err(e) ==> tokenizer_error(e) || (e.kind == CssErrorKind::InvalidAnimationName && e.location is Some),
{
    let location = current_location(parser);
    let token = next_token(parser)?;
    animation_name_from_token(&token, location)
}

/// Reads the name of a transitioned property: an identifier.
pub fn parse_property_name(parser: &mut cssparser::Parser) -> (r: Result<String, CssError>)
    ensures
        r matches Err(e) ==> tokenizer_error(e) || (e.kind == CssErrorKind::InvalidTransitionPropertyName && e.location is Some),
{
    let location = current_location(parser);
    let token = next_token(parser)?;
    property_name_from_token(&token, location)
}

/// The arguments of `steps()`: a number of steps, then optionally a comma
/// and a step position, `end` when left out.
pub fn parse_easing_steps_parameters(parser: &mut cssparser::Parser) -> (r: Result<(i32, StepPosition), CssError>)
    ensures
        r matches Err(e) ==> tokenizer_error(e) || (e.kind == CssErrorKind::InvalidStepPosition && e.location is Some),
{
    let location = current_location(parser);
    let token = next_token(parser)?;
    let steps = integer_from_token(&token, location)?;
    if is_exhausted(parser) {
        Ok(steps_with_position(steps, None))
    } else {
        let comma_location = current_location(parser);
        let comma = next_token(parser)?;
        comma_from_token(&comma, comma_location)?;
        let position_location = current_location(parser);
        let position_token = next_token(parser)?;
        let position = step_position_from_token(&position_token, position_location)?;
        Ok(steps_with_position(steps, Some(position)))
    }
}

/// Reads the value of `prefers-color-scheme`: `light` or `dark`.
pub fn parse_color_scheme(parser: &mut cssparser::Parser) -> (r: Result<ColorScheme, CssError>)
    ensures
        r matches Err(e) ==> tokenizer_error(e) || (e.kind == CssErrorKind::UnexpectedColorScheme && e.location is Some),
{
    let location = current_location(parser);
    let token = next_token(parser)?;
    color_scheme_from_token(&token, location)
}

/// What an `animation-fill-mode` token gives: an identifier among `none`,
/// `forwards`, `backwards` and `both` (in any ASCII case) its fill mode;
/// another identifier the fill-mode error at its place; any other token an
/// unexpected token at its place.
pub proof fn lemma_fill_mode_token(t: CssToken, location: SourceLocation)
    ensures
        ({
            let r = keyword_token(t, |s: Seq<char>| animation_fill_mode_keyword(s), CssErrorKind::InvalidAnimationFillMode, location);
            match t {
                CssToken::Ident(s) => {
                    &&& eq_ignore_ascii_case_spec(s@, "none"@) ==> r == Ok::<AnimationFillMode, CssError>(AnimationFillMode::NoFill)
                    &&& eq_ignore_ascii_case_spec(s@, "forwards"@) ==> r == Ok::<AnimationFillMode, CssError>(AnimationFillMode::Forwards)
                    &&& eq_ignore_ascii_case_spec(s@, "backwards"@) ==> r == Ok::<AnimationFillMode, CssError>(AnimationFillMode::Backwards)
                    &&& eq_ignore_ascii_case_spec(s@, "both"@) ==> r == Ok::<AnimationFillMode, CssError>(AnimationFillMode::Both)
                    &&& r is Err ==> r == Err::<AnimationFillMode, CssError>(
                        CssError { kind: CssErrorKind::InvalidAnimationFillMode, location: Some(location) })
                },
                _ => r == Err::<AnimationFillMode, CssError>(unexpected(location)),
            }
        }),
{
    if let CssToken::Ident(s) = t {
        lemma_fill_mode_keywords(s@);
    }
}

/// What an `animation-direction` token gives: an identifier among `normal`,
/// `reverse`, `alternate` and `alternate-reverse` (in any ASCII case) its
/// direction; any other token is an error at its place.
pub proof fn lemma_direction_token(t: CssToken, location: SourceLocation)
    ensures
        ({
            let r = keyword_token(t, |s: Seq<char>| animation_direction_keyword(s), CssErrorKind::InvalidAnimationDirection, location);
            match t {
                CssToken::Ident(s) => {
                    &&& eq_ignore_ascii_case_spec(s@, "normal"@) ==> r == Ok::<AnimationDirection, CssError>(AnimationDirection::Normal)
                    &&& eq_ignore_ascii_case_spec(s@, "reverse"@) ==> r == Ok::<AnimationDirection, CssError>(AnimationDirection::Reverse)
                    &&& eq_ignore_ascii_case_spec(s@, "alternate"@) ==> r == Ok::<AnimationDirection, CssError>(AnimationDirection::Alternate)
                    &&& eq_ignore_ascii_case_spec(s@, "alternate-reverse"@)
                        ==> r == Ok::<AnimationDirection, CssError>(AnimationDirection::AlternateReverse)
                    &&& r is Err ==> r == Err::<AnimationDirection, CssError>(
                        CssError { kind: CssErrorKind::InvalidAnimationDirection, location: Some(location) })
                },
                _ => r == Err::<AnimationDirection, CssError>(unexpected(location)),
            }
        }),
{
    if let CssToken::Ident(s) = t {
        lemma_direction_keywords(s@);
    }
}

/// What an `animation-play-state` token gives: `running` or `paused` (in any
/// ASCII case) their play state; any other token is an error at its place.
pub proof fn lemma_play_state_token(t: CssToken, location: SourceLocation)
    ensures
        ({
            let r = keyword_token(t, |s: Seq<char>| animation_play_state_keyword(s), CssErrorKind::InvalidAnimationPlayState, location);
            match t {
                CssToken::Ident(s) => {
                    &&& eq_ignore_ascii_case_spec(s@, "running"@) ==> r == Ok::<AnimationPlayState, CssError>(AnimationPlayState::Running)
                    &&& eq_ignore_ascii_case_spec(s@, "paused"@) ==> r == Ok::<AnimationPlayState, CssError>(AnimationPlayState::Paused)
                    &&& r is Err ==> r == Err::<AnimationPlayState, CssError>(
                        CssError { kind: CssErrorKind::InvalidAnimationPlayState, location: Some(location) })
                },
                _ => r == Err::<AnimationPlayState, CssError>(unexpected(location)),
            }
        }),
{
    if let CssToken::Ident(s) = t {
        lemma_play_state_keywords(s@);
    }
}

/// What a `prefers-color-scheme` token gives: `light` or `dark` (in any ASCII
/// case) their scheme; any other token is an error at its place.
pub proof fn lemma_color_scheme_token(t: CssToken, location: SourceLocation)
    ensures
        ({
            let r = keyword_token(t, |s: Seq<char>| color_scheme_keyword(s), CssErrorKind::UnexpectedColorScheme, location);
            match t {
                CssToken::Ident(s) => {
                    &&& eq_ignore_ascii_case_spec(s@, "light"@) ==> r == Ok::<ColorScheme, CssError>(ColorScheme::Light)
                    &&& eq_ignore_ascii_case_spec(s@, "dark"@) ==> r == Ok::<ColorScheme, CssError>(ColorScheme::Dark)
                    &&& r is Err ==> r == Err::<ColorScheme, CssError>(
                        CssError { kind: CssErrorKind::UnexpectedColorScheme, location: Some(location) })
                },
                _ => r == Err::<ColorScheme, CssError>(unexpected(location)),
            }
        }),
{
    if let CssToken::Ident(s) = t {
        lemma_color_scheme_keywords(s@);
    }
}

/// What an `animation-iteration-count` token gives: `infinite` (in any
/// ASCII case) infinitely many; a whole number that is not negative that
/// many; anything else the iteration-count error at its place.
pub proof fn lemma_iteration_count_token(t: CssToken, location: SourceLocation)
    ensures
        ({
            let r = iteration_count_token(t, location);
            let invalid = Err::<IterationCount, CssError>(
                CssError { kind: CssErrorKind::InvalidIterationCount, location: Some(location) });
            match t {
                CssToken::Ident(s) => r == if eq_ignore_ascii_case_spec(s@, "infinite"@) {
                    Ok::<IterationCount, CssError>(IterationCount::Infinite)
                } else {
                    invalid
                },
                CssToken::Number { int_value: Some(v) } => r == if v >= 0 {
                    Ok::<IterationCount, CssError>(IterationCount::Count(v as u32))
                } else {
                    invalid
                },
                _ => r == invalid,
            }
        }),
        forall|v: i32| 0 <= v ==> (#[trigger] iteration_count_token(CssToken::Number { int_value: Some(v) }, location)
            matches Ok(IterationCount::Count(n)) && n == v),
{
}

} // verus!

