//! CSS keywords, matched without regard to ASCII case.

use vstd::prelude::*;
use crate::animations::animation::{AnimationDirection, AnimationFillMode, AnimationPlayState};
use crate::animations::easing::{EasingFunctionName, EasingKeyword, StepPosition};
use crate::animations::properties::{AnimationPropertyId, TransitionPropertyId};
use crate::css::error::CssErrorKind;
use crate::pseudo_state::ColorScheme;

verus! {

/// Code of `c` with ASCII upper-case letters lowered.
pub open spec fn ascii_lower_code(c: char) -> u32 {
    if 'A' <= c && c <= 'Z' {
        (c as u32 + 32) as u32
    } else {
        c as u32
    }
}

/// Whether `a` and `b` are equal once ASCII letters are lowered.
pub open spec fn eq_ignore_ascii_case_spec(a: Seq<char>, b: Seq<char>) -> bool {
    &&& a.len() == b.len()
    &&& forall|i: int| 0 <= i < a.len() ==> #[trigger] ascii_lower_code(a[i]) == ascii_lower_code(b[i])
}

fn ascii_lower(c: char) -> (r: u32)
    ensures
        r == ascii_lower_code(c),
{
    if 'A' <= c && c <= 'Z' {
        (c as u32) + 32
    } else {
        c as u32
    }
}

/// Whether two strings are equal without regard to ASCII case.
pub fn eq_ignore_ascii_case(a: &str, b: &str) -> (r: bool)
    ensures
        r == eq_ignore_ascii_case_spec(a@, b@),
{
    let n = a.unicode_len();
    if n != b.unicode_len() {
        return false;
    }
    let mut i: usize = 0;
    while i < n
        invariant
            n == a@.len(),
            n == b@.len(),
            i <= n,
            forall|k: int| 0 <= k < i ==> #[trigger] ascii_lower_code(a@[k]) == ascii_lower_code(b@[k]),
        decreases n - i,
    {
        if ascii_lower(a.get_char(i)) != ascii_lower(b.get_char(i)) {
            assert(!eq_ignore_ascii_case_spec(a@, b@)) by {
                assert(ascii_lower_code(a@[i as int]) != ascii_lower_code(b@[i as int]));
            }
            return false;
        }
        i = i + 1;
    }
    true
}

/// Whether `s` starts with `prefix`, without regard to ASCII case.
pub open spec fn prefix_eq_ignore_ascii_case_spec(s: Seq<char>, prefix: Seq<char>) -> bool {
    prefix.len() <= s.len() && eq_ignore_ascii_case_spec(s.take(prefix.len() as int), prefix)
}

/// Whether `s` starts with `prefix`, without regard to ASCII case.
pub fn prefix_eq_ignore_ascii_case(s: &str, prefix: &str) -> (r: bool)
    ensures
        r == prefix_eq_ignore_ascii_case_spec(s@, prefix@),
{
    let n = prefix.unicode_len();
    if n > s.unicode_len() {
        return false;
    }
    let head = s.substring_char(0, n);
    assert(head@ =~= s@.take(n as int));
    eq_ignore_ascii_case(head, prefix)
}

/// The animation direction a keyword names.
pub open spec fn animation_direction_keyword(s: Seq<char>) -> Option<AnimationDirection> {
    if eq_ignore_ascii_case_spec(s, "normal"@) {
        Some(AnimationDirection::Normal)
    } else if eq_ignore_ascii_case_spec(s, "reverse"@) {
        Some(AnimationDirection::Reverse)
    } else if eq_ignore_ascii_case_spec(s, "alternate"@) {
        Some(AnimationDirection::Alternate)
    } else if eq_ignore_ascii_case_spec(s, "alternate-reverse"@) {
        Some(AnimationDirection::AlternateReverse)
    } else {
        None
    }
}

/// Reads `animation-direction`.
pub fn animation_direction_from_ident(ident: &str) -> (r: Result<AnimationDirection, CssErrorKind>)
    ensures
        match animation_direction_keyword(ident@) {
            Some(d) => r == Ok::<AnimationDirection, CssErrorKind>(d),
            None => r == Err::<AnimationDirection, CssErrorKind>(CssErrorKind::InvalidAnimationDirection),
        },
{
    if eq_ignore_ascii_case(ident, "normal") {
        Ok(AnimationDirection::Normal)
    } else if eq_ignore_ascii_case(ident, "reverse") {
        Ok(AnimationDirection::Reverse)
    } else if eq_ignore_ascii_case(ident, "alternate") {
        Ok(AnimationDirection::Alternate)
    } else if eq_ignore_ascii_case(ident, "alternate-reverse") {
        Ok(AnimationDirection::AlternateReverse)
    } else {
        Err(CssErrorKind::InvalidAnimationDirection)
    }
}

/// The fill mode a keyword names.
pub open spec fn animation_fill_mode_keyword(s: Seq<char>) -> Option<AnimationFillMode> {
    if eq_ignore_ascii_case_spec(s, "none"@) {
        Some(AnimationFillMode::NoFill)
    } else if eq_ignore_ascii_case_spec(s, "forwards"@) {
        Some(AnimationFillMode::Forwards)
    } else if eq_ignore_ascii_case_spec(s, "backwards"@) {
        Some(AnimationFillMode::Backwards)
    } else if eq_ignore_ascii_case_spec(s, "both"@) {
        Some(AnimationFillMode::Both)
    } else {
        None
    }
}

/// Reads `animation-fill-mode`.
pub fn animation_fill_mode_from_ident(ident: &str) -> (r: Result<AnimationFillMode, CssErrorKind>)
    ensures
        match animation_fill_mode_keyword(ident@) {
            Some(f) => r == Ok::<AnimationFillMode, CssErrorKind>(f),
            None => r == Err::<AnimationFillMode, CssErrorKind>(CssErrorKind::InvalidAnimationFillMode),
        },
{
    if eq_ignore_ascii_case(ident, "none") {
        Ok(AnimationFillMode::NoFill)
    } else if eq_ignore_ascii_case(ident, "forwards") {
        Ok(AnimationFillMode::Forwards)
    } else if eq_ignore_ascii_case(ident, "backwards") {
        Ok(AnimationFillMode::Backwards)
    } else if eq_ignore_ascii_case(ident, "both") {
        Ok(AnimationFillMode::Both)
    } else {
        Err(CssErrorKind::InvalidAnimationFillMode)
    }
}

/// The play state a keyword names.
pub open spec fn animation_play_state_keyword(s: Seq<char>) -> Option<AnimationPlayState> {
    if eq_ignore_ascii_case_spec(s, "running"@) {
        Some(AnimationPlayState::Running)
    } else if eq_ignore_ascii_case_spec(s, "paused"@) {
        Some(AnimationPlayState::Paused)
    } else {
        None
    }
}

/// Reads `animation-play-state`.
pub fn animation_play_state_from_ident(ident: &str) -> (r: Result<AnimationPlayState, CssErrorKind>)
    ensures
        match animation_play_state_keyword(ident@) {
            Some(p) => r == Ok::<AnimationPlayState, CssErrorKind>(p),
            None => r == Err::<AnimationPlayState, CssErrorKind>(CssErrorKind::InvalidAnimationPlayState),
        },
{
    if eq_ignore_ascii_case(ident, "running") {
        Ok(AnimationPlayState::Running)
    } else if eq_ignore_ascii_case(ident, "paused") {
        Ok(AnimationPlayState::Paused)
    } else {
        Err(CssErrorKind::InvalidAnimationPlayState)
    }
}

/// The step position a keyword names.
pub open spec fn step_position_keyword(s: Seq<char>) -> Option<StepPosition> {
    if eq_ignore_ascii_case_spec(s, "jump-start"@) {
        Some(StepPosition::JumpStart)
    } else if eq_ignore_ascii_case_spec(s, "jump-end"@) {
        Some(StepPosition::JumpEnd)
    } else if eq_ignore_ascii_case_spec(s, "jump-none"@) {
        Some(StepPosition::JumpNone)
    } else if eq_ignore_ascii_case_spec(s, "jump-both"@) {
        Some(StepPosition::JumpBoth)
    } else if eq_ignore_ascii_case_spec(s, "start"@) {
        Some(StepPosition::Start)
    } else if eq_ignore_ascii_case_spec(s, "end"@) {
        Some(StepPosition::End)
    } else {
        None
    }
}

/// Reads the position argument of `steps()`.
pub fn step_position_from_ident(ident: &str) -> (r: Result<StepPosition, CssErrorKind>)
    ensures
        match step_position_keyword(ident@) {
            Some(p) => r == Ok::<StepPosition, CssErrorKind>(p),
            None => r == Err::<StepPosition, CssErrorKind>(CssErrorKind::InvalidStepPosition),
        },
{
    if eq_ignore_ascii_case(ident, "jump-start") {
        Ok(StepPosition::JumpStart)
    } else if eq_ignore_ascii_case(ident, "jump-end") {
        Ok(StepPosition::JumpEnd)
    } else if eq_ignore_ascii_case(ident, "jump-none") {
        Ok(StepPosition::JumpNone)
    } else if eq_ignore_ascii_case(ident, "jump-both") {
        Ok(StepPosition::JumpBoth)
    } else if eq_ignore_ascii_case(ident, "start") {
        Ok(StepPosition::Start)
    } else if eq_ignore_ascii_case(ident, "end") {
        Ok(StepPosition::End)
    } else {
        Err(CssErrorKind::InvalidStepPosition)
    }
}

/// The easing function a keyword names.
pub open spec fn easing_keyword(s: Seq<char>) -> Option<EasingKeyword> {
    if eq_ignore_ascii_case_spec(s, "linear"@) {
        Some(EasingKeyword::Linear)
    } else if eq_ignore_ascii_case_spec(s, "ease"@) {
        Some(EasingKeyword::Ease)
    } else if eq_ignore_ascii_case_spec(s, "ease-in"@) {
        Some(EasingKeyword::EaseIn)
    } else if eq_ignore_ascii_case_spec(s, "ease-out"@) {
        Some(EasingKeyword::EaseOut)
    } else if eq_ignore_ascii_case_spec(s, "ease-in-out"@) {
        Some(EasingKeyword::EaseInOut)
    } else if eq_ignore_ascii_case_spec(s, "step-start"@) {
        Some(EasingKeyword::StepStart)
    } else if eq_ignore_ascii_case_spec(s, "step-end"@) {
        Some(EasingKeyword::StepEnd)
    } else {
        None
    }
}

/// Reads an easing function given by keyword.
pub fn easing_keyword_from_ident(ident: &str) -> (r: Result<EasingKeyword, CssErrorKind>)
    ensures
        match easing_keyword(ident@) {
            Some(e) => r == Ok::<EasingKeyword, CssErrorKind>(e),
            None => r == Err::<EasingKeyword, CssErrorKind>(CssErrorKind::InvalidEasingFunctionKeyword),
        },
{
    if eq_ignore_ascii_case(ident, "linear") {
        Ok(EasingKeyword::Linear)
    } else if eq_ignore_ascii_case(ident, "ease") {
        Ok(EasingKeyword::Ease)
    } else if eq_ignore_ascii_case(ident, "ease-in") {
        Ok(EasingKeyword::EaseIn)
    } else if eq_ignore_ascii_case(ident, "ease-out") {
        Ok(EasingKeyword::EaseOut)
    } else if eq_ignore_ascii_case(ident, "ease-in-out") {
        Ok(EasingKeyword::EaseInOut)
    } else if eq_ignore_ascii_case(ident, "step-start") {
        Ok(EasingKeyword::StepStart)
    } else if eq_ignore_ascii_case(ident, "step-end") {
        Ok(EasingKeyword::StepEnd)
    } else {
        Err(CssErrorKind::InvalidEasingFunctionKeyword)
    }
}


/// The color scheme a keyword names.
pub open spec fn color_scheme_keyword(s: Seq<char>) -> Option<ColorScheme> {
    if eq_ignore_ascii_case_spec(s, "light"@) {
        Some(ColorScheme::Light)
    } else if eq_ignore_ascii_case_spec(s, "dark"@) {
        Some(ColorScheme::Dark)
    } else {
        None
    }
}

/// Reads `prefers-color-scheme`.
pub fn color_scheme_from_ident(ident: &str) -> (r: Result<ColorScheme, CssErrorKind>)
    ensures
        match color_scheme_keyword(ident@) {
            Some(c) => r == Ok::<ColorScheme, CssErrorKind>(c),
            None => r == Err::<ColorScheme, CssErrorKind>(CssErrorKind::UnexpectedColorScheme),
        },
{
    if eq_ignore_ascii_case(ident, "light") {
        Ok(ColorScheme::Light)
    } else if eq_ignore_ascii_case(ident, "dark") {
        Ok(ColorScheme::Dark)
    } else {
        Err(CssErrorKind::UnexpectedColorScheme)
    }
}

/// The animation property a name names: `Some(None)` for the `animation`
/// shorthand, `Some(Some(id))` for one of the `animation-*` properties.
pub open spec fn animation_property_name(s: Seq<char>) -> Option<Option<AnimationPropertyId>> {
    if eq_ignore_ascii_case_spec(s, "animation"@) {
        Some(None)
    } else if eq_ignore_ascii_case_spec(s, "animation-name"@) {
        Some(Some(AnimationPropertyId::Name))
    } else if eq_ignore_ascii_case_spec(s, "animation-duration"@) {
        Some(Some(AnimationPropertyId::Duration))
    } else if eq_ignore_ascii_case_spec(s, "animation-delay"@) {
        Some(Some(AnimationPropertyId::Delay))
    } else if eq_ignore_ascii_case_spec(s, "animation-direction"@) {
        Some(Some(AnimationPropertyId::Direction))
    } else if eq_ignore_ascii_case_spec(s, "animation-fill-mode"@) {
        Some(Some(AnimationPropertyId::FillMode))
    } else if eq_ignore_ascii_case_spec(s, "animation-iteration-count"@) {
        Some(Some(AnimationPropertyId::IterationCount))
    } else if eq_ignore_ascii_case_spec(s, "animation-play-state"@) {
        Some(Some(AnimationPropertyId::PlayState))
    } else if eq_ignore_ascii_case_spec(s, "animation-timing-function"@) {
        Some(Some(AnimationPropertyId::TimingFunction))
    } else {
        None
    }
}

/// Which animation property a declaration sets: `None` for the `animation`
/// shorthand, which sets them all.
pub fn animation_property_from_name(property_name: &str) -> (r: Result<Option<AnimationPropertyId>, CssErrorKind>)
    ensures
        match animation_property_name(property_name@) {
            Some(p) => r == Ok::<Option<AnimationPropertyId>, CssErrorKind>(p),
            None => r == Err::<Option<AnimationPropertyId>, CssErrorKind>(CssErrorKind::InvalidAnimationProperty),
        },
{
    if eq_ignore_ascii_case(property_name, "animation") {
        Ok(None)
    } else if eq_ignore_ascii_case(property_name, "animation-name") {
        Ok(Some(AnimationPropertyId::Name))
    } else if eq_ignore_ascii_case(property_name, "animation-duration") {
        Ok(Some(AnimationPropertyId::Duration))
    } else if eq_ignore_ascii_case(property_name, "animation-delay") {
        Ok(Some(AnimationPropertyId::Delay))
    } else if eq_ignore_ascii_case(property_name, "animation-direction") {
        Ok(Some(AnimationPropertyId::Direction))
    } else if eq_ignore_ascii_case(property_name, "animation-fill-mode") {
        Ok(Some(AnimationPropertyId::FillMode))
    } else if eq_ignore_ascii_case(property_name, "animation-iteration-count") {
        Ok(Some(AnimationPropertyId::IterationCount))
    } else if eq_ignore_ascii_case(property_name, "animation-play-state") {
        Ok(Some(AnimationPropertyId::PlayState))
    } else if eq_ignore_ascii_case(property_name, "animation-timing-function") {
        Ok(Some(AnimationPropertyId::TimingFunction))
    } else {
        Err(CssErrorKind::InvalidAnimationProperty)
    }
}

/// The transition property a name names: `Some(None)` for the `transition`
/// shorthand, `Some(Some(id))` for one of the `transition-*` properties.
pub open spec fn transition_property_name(s: Seq<char>) -> Option<Option<TransitionPropertyId>> {
    if eq_ignore_ascii_case_spec(s, "transition"@) {
        Some(None)
    } else if eq_ignore_ascii_case_spec(s, "transition-property"@) {
        Some(Some(TransitionPropertyId::PropertyName))
    } else if eq_ignore_ascii_case_spec(s, "transition-duration"@) {
        Some(Some(TransitionPropertyId::Duration))
    } else if eq_ignore_ascii_case_spec(s, "transition-delay"@) {
        Some(Some(TransitionPropertyId::Delay))
    } else if eq_ignore_ascii_case_spec(s, "transition-timing-function"@) {
        Some(Some(TransitionPropertyId::TimingFunction))
    } else {
        None
    }
}

/// Which transition property a declaration sets: `None` for the
/// `transition` shorthand, which sets them all.
pub fn transition_property_from_name(property_name: &str) -> (r: Result<Option<TransitionPropertyId>, CssErrorKind>)
    ensures
        match transition_property_name(property_name@) {
            Some(p) => r == Ok::<Option<TransitionPropertyId>, CssErrorKind>(p),
            None => r == Err::<Option<TransitionPropertyId>, CssErrorKind>(CssErrorKind::InvalidTransitionProperty),
        },
{
    if eq_ignore_ascii_case(property_name, "transition") {
        Ok(None)
    } else if eq_ignore_ascii_case(property_name, "transition-property") {
        Ok(Some(TransitionPropertyId::PropertyName))
    } else if eq_ignore_ascii_case(property_name, "transition-duration") {
        Ok(Some(TransitionPropertyId::Duration))
    } else if eq_ignore_ascii_case(property_name, "transition-delay") {
        Ok(Some(TransitionPropertyId::Delay))
    } else if eq_ignore_ascii_case(property_name, "transition-timing-function") {
        Ok(Some(TransitionPropertyId::TimingFunction))
    } else {
        Err(CssErrorKind::InvalidTransitionProperty)
    }
}

/// The easing function a function name names.
pub open spec fn easing_function_name(s: Seq<char>) -> Option<EasingFunctionName> {
    if eq_ignore_ascii_case_spec(s, "linear"@) {
        Some(EasingFunctionName::Linear)
    } else if eq_ignore_ascii_case_spec(s, "steps"@) {
        Some(EasingFunctionName::Steps)
    } else if eq_ignore_ascii_case_spec(s, "cubic-bezier"@) {
        Some(EasingFunctionName::CubicBezier)
    } else {
        None
    }
}

/// Which easing function a function call names.
pub fn easing_function_from_name(name: &str) -> (r: Result<EasingFunctionName, CssErrorKind>)
    ensures
        match easing_function_name(name@) {
            Some(f) => r == Ok::<EasingFunctionName, CssErrorKind>(f),
            None => r == Err::<EasingFunctionName, CssErrorKind>(CssErrorKind::InvalidEasingFunctionName),
        },
{
    if eq_ignore_ascii_case(name, "linear") {
        Ok(EasingFunctionName::Linear)
    } else if eq_ignore_ascii_case(name, "steps") {
        Ok(EasingFunctionName::Steps)
    } else if eq_ignore_ascii_case(name, "cubic-bezier") {
        Ok(EasingFunctionName::CubicBezier)
    } else {
        Err(CssErrorKind::InvalidEasingFunctionName)
    }
}

/// A string equal to `a` without regard to ASCII case is equal so to `b`
/// exactly when `a` is.
proof fn lemma_case_eq_transfer(s: Seq<char>, a: Seq<char>, b: Seq<char>)
    requires
        eq_ignore_ascii_case_spec(s, a),
    ensures
        eq_ignore_ascii_case_spec(s, b) <==> eq_ignore_ascii_case_spec(a, b),
{
    if eq_ignore_ascii_case_spec(s, b) {
        assert forall|i: int| 0 <= i < a.len() implies #[trigger] ascii_lower_code(a[i]) == ascii_lower_code(b[i]) by {
            assert(ascii_lower_code(s[i]) == ascii_lower_code(a[i]));
            assert(ascii_lower_code(s[i]) == ascii_lower_code(b[i]));
        }
    }
    if eq_ignore_ascii_case_spec(a, b) {
        assert forall|i: int| 0 <= i < s.len() implies #[trigger] ascii_lower_code(s[i]) == ascii_lower_code(b[i]) by {
            assert(ascii_lower_code(s[i]) == ascii_lower_code(a[i]));
            assert(ascii_lower_code(a[i]) == ascii_lower_code(b[i]));
        }
    }
}

/// A string equal to `a` without regard to ASCII case is equal so to each
/// keyword of `ks` exactly when `a` is.
proof fn lemma_case_eq_transfer_all(s: Seq<char>, a: Seq<char>, ks: Seq<Seq<char>>)
    requires
        eq_ignore_ascii_case_spec(s, a),
    ensures
        forall|i: int| 0 <= i < ks.len() ==>
            (eq_ignore_ascii_case_spec(s, #[trigger] ks[i]) <==> eq_ignore_ascii_case_spec(a, ks[i])),
{
    assert forall|i: int| 0 <= i < ks.len() implies
        (eq_ignore_ascii_case_spec(s, #[trigger] ks[i]) <==> eq_ignore_ascii_case_spec(a, ks[i])) by {
        lemma_case_eq_transfer(s, a, ks[i]);
    }
}

/// A string equal to one of the keywords `ks` without regard to ASCII case
/// is equal so to another exactly when those two keywords are.
proof fn lemma_keyword_cases(s: Seq<char>, ks: Seq<Seq<char>>)
    ensures
        forall|j: int, k: int| 0 <= j < ks.len() && 0 <= k < ks.len() && eq_ignore_ascii_case_spec(s, #[trigger] ks[j])
            ==> (eq_ignore_ascii_case_spec(s, #[trigger] ks[k]) <==> eq_ignore_ascii_case_spec(ks[j], ks[k])),
{
    assert forall|j: int, k: int| 0 <= j < ks.len() && 0 <= k < ks.len() && eq_ignore_ascii_case_spec(s, #[trigger] ks[j])
        implies (eq_ignore_ascii_case_spec(s, #[trigger] ks[k]) <==> eq_ignore_ascii_case_spec(ks[j], ks[k])) by {
        lemma_case_eq_transfer(s, ks[j], ks[k]);
    }
}

/// Every string is equal to itself without regard to ASCII case.
proof fn lemma_case_eq_refl(a: Seq<char>)
    ensures
        eq_ignore_ascii_case_spec(a, a),
{
}

/// The `animation-fill-mode` keywords, in any ASCII case: `none`, `forwards`,
/// `backwards` and `both` name no fill, forwards, backwards and both; no
/// other word names a fill mode.
pub proof fn lemma_fill_mode_keywords(s: Seq<char>)
    ensures
        eq_ignore_ascii_case_spec(s, "none"@) ==> animation_fill_mode_keyword(s) == Some(AnimationFillMode::NoFill),
        eq_ignore_ascii_case_spec(s, "forwards"@) ==> animation_fill_mode_keyword(s) == Some(AnimationFillMode::Forwards),
        eq_ignore_ascii_case_spec(s, "backwards"@) ==> animation_fill_mode_keyword(s) == Some(AnimationFillMode::Backwards),
        eq_ignore_ascii_case_spec(s, "both"@) ==> animation_fill_mode_keyword(s) == Some(AnimationFillMode::Both),
        !eq_ignore_ascii_case_spec(s, "none"@) && !eq_ignore_ascii_case_spec(s, "forwards"@)
            && !eq_ignore_ascii_case_spec(s, "backwards"@) && !eq_ignore_ascii_case_spec(s, "both"@)
            ==> animation_fill_mode_keyword(s) is None,
{
    reveal_strlit("none");
    reveal_strlit("forwards");
    reveal_strlit("backwards");
    reveal_strlit("both");
    let ks = seq!["none"@, "forwards"@, "backwards"@, "both"@];
    assert(!eq_ignore_ascii_case_spec("none"@, "both"@)) by {
        assert(ascii_lower_code("none"@[0]) != ascii_lower_code("both"@[0]));
    }
    assert(!eq_ignore_ascii_case_spec("both"@, "none"@)) by {
        assert(ascii_lower_code("none"@[0]) != ascii_lower_code("both"@[0]));
    }
    lemma_keyword_cases(s, ks);
    assert(ks[0] == "none"@ && ks[1] == "forwards"@ && ks[2] == "backwards"@ && ks[3] == "both"@);
}

/// The `animation-direction` keywords, in any ASCII case, and what they name; no other word names a direction.
pub proof fn lemma_direction_keywords(s: Seq<char>)
    ensures
        eq_ignore_ascii_case_spec(s, "normal"@) ==> animation_direction_keyword(s) == Some(AnimationDirection::Normal),
        eq_ignore_ascii_case_spec(s, "reverse"@) ==> animation_direction_keyword(s) == Some(AnimationDirection::Reverse),
        eq_ignore_ascii_case_spec(s, "alternate"@) ==> animation_direction_keyword(s) == Some(AnimationDirection::Alternate),
        eq_ignore_ascii_case_spec(s, "alternate-reverse"@) ==> animation_direction_keyword(s) == Some(AnimationDirection::AlternateReverse),
        !eq_ignore_ascii_case_spec(s, "normal"@) && !eq_ignore_ascii_case_spec(s, "reverse"@) && !eq_ignore_ascii_case_spec(s, "alternate"@) && !eq_ignore_ascii_case_spec(s, "alternate-reverse"@)
            ==> animation_direction_keyword(s) is None,
{
    reveal_strlit("normal");
    reveal_strlit("reverse");
    reveal_strlit("alternate");
    reveal_strlit("alternate-reverse");
    let ks = seq!["normal"@, "reverse"@, "alternate"@, "alternate-reverse"@];
    lemma_keyword_cases(s, ks);
    assert(ks[0] == "normal"@ && ks[1] == "reverse"@ && ks[2] == "alternate"@ && ks[3] == "alternate-reverse"@);
}

/// The `animation-play-state` keywords, in any ASCII case, and what they name; no other word names a play state.
pub proof fn lemma_play_state_keywords(s: Seq<char>)
    ensures
        eq_ignore_ascii_case_spec(s, "running"@) ==> animation_play_state_keyword(s) == Some(AnimationPlayState::Running),
        eq_ignore_ascii_case_spec(s, "paused"@) ==> animation_play_state_keyword(s) == Some(AnimationPlayState::Paused),
        !eq_ignore_ascii_case_spec(s, "running"@) && !eq_ignore_ascii_case_spec(s, "paused"@)
            ==> animation_play_state_keyword(s) is None,
{
    reveal_strlit("running");
    reveal_strlit("paused");
    let ks = seq!["running"@, "paused"@];
    lemma_keyword_cases(s, ks);
    assert(ks[0] == "running"@ && ks[1] == "paused"@);
}

/// The step positions of `steps()`, in any ASCII case, and what they name; no other word names one.
pub proof fn lemma_step_position_keywords(s: Seq<char>)
    ensures
        eq_ignore_ascii_case_spec(s, "jump-start"@) ==> step_position_keyword(s) == Some(StepPosition::JumpStart),
        eq_ignore_ascii_case_spec(s, "jump-end"@) ==> step_position_keyword(s) == Some(StepPosition::JumpEnd),
        eq_ignore_ascii_case_spec(s, "jump-none"@) ==> step_position_keyword(s) == Some(StepPosition::JumpNone),
        eq_ignore_ascii_case_spec(s, "jump-both"@) ==> step_position_keyword(s) == Some(StepPosition::JumpBoth),
        eq_ignore_ascii_case_spec(s, "start"@) ==> step_position_keyword(s) == Some(StepPosition::Start),
        eq_ignore_ascii_case_spec(s, "end"@) ==> step_position_keyword(s) == Some(StepPosition::End),
        !eq_ignore_ascii_case_spec(s, "jump-start"@) && !eq_ignore_ascii_case_spec(s, "jump-end"@) && !eq_ignore_ascii_case_spec(s, "jump-none"@) && !eq_ignore_ascii_case_spec(s, "jump-both"@) && !eq_ignore_ascii_case_spec(s, "start"@) && !eq_ignore_ascii_case_spec(s, "end"@)
            ==> step_position_keyword(s) is None,
{
    reveal_strlit("jump-start");
    reveal_strlit("jump-end");
    reveal_strlit("jump-none");
    reveal_strlit("jump-both");
    reveal_strlit("start");
    reveal_strlit("end");
    let ks = seq!["jump-start"@, "jump-end"@, "jump-none"@, "jump-both"@, "start"@, "end"@];
    assert(!eq_ignore_ascii_case_spec("jump-none"@, "jump-both"@)) by {
        assert(ascii_lower_code("jump-none"@[5]) != ascii_lower_code("jump-both"@[5]));
    }
    assert(!eq_ignore_ascii_case_spec("jump-both"@, "jump-none"@)) by {
        assert(ascii_lower_code("jump-both"@[5]) != ascii_lower_code("jump-none"@[5]));
    }
    lemma_keyword_cases(s, ks);
    assert(ks[0] == "jump-start"@ && ks[1] == "jump-end"@ && ks[2] == "jump-none"@ && ks[3] == "jump-both"@ && ks[4] == "start"@ && ks[5] == "end"@);
}

/// The easing function keywords, in any ASCII case, and what they name; no other word names one.
pub proof fn lemma_easing_keywords(s: Seq<char>)
    ensures
        eq_ignore_ascii_case_spec(s, "linear"@) ==> easing_keyword(s) == Some(EasingKeyword::Linear),
        eq_ignore_ascii_case_spec(s, "ease"@) ==> easing_keyword(s) == Some(EasingKeyword::Ease),
        eq_ignore_ascii_case_spec(s, "ease-in"@) ==> easing_keyword(s) == Some(EasingKeyword::EaseIn),
        eq_ignore_ascii_case_spec(s, "ease-out"@) ==> easing_keyword(s) == Some(EasingKeyword::EaseOut),
        eq_ignore_ascii_case_spec(s, "ease-in-out"@) ==> easing_keyword(s) == Some(EasingKeyword::EaseInOut),
        eq_ignore_ascii_case_spec(s, "step-start"@) ==> easing_keyword(s) == Some(EasingKeyword::StepStart),
        eq_ignore_ascii_case_spec(s, "step-end"@) ==> easing_keyword(s) == Some(EasingKeyword::StepEnd),
        !eq_ignore_ascii_case_spec(s, "linear"@) && !eq_ignore_ascii_case_spec(s, "ease"@) && !eq_ignore_ascii_case_spec(s, "ease-in"@) && !eq_ignore_ascii_case_spec(s, "ease-out"@) && !eq_ignore_ascii_case_spec(s, "ease-in-out"@) && !eq_ignore_ascii_case_spec(s, "step-start"@) && !eq_ignore_ascii_case_spec(s, "step-end"@)
            ==> easing_keyword(s) is None,
{
    reveal_strlit("linear");
    reveal_strlit("ease");
    reveal_strlit("ease-in");
    reveal_strlit("ease-out");
    reveal_strlit("ease-in-out");
    reveal_strlit("step-start");
    reveal_strlit("step-end");
    let ks = seq!["linear"@, "ease"@, "ease-in"@, "ease-out"@, "ease-in-out"@, "step-start"@, "step-end"@];
    assert(!eq_ignore_ascii_case_spec("ease-out"@, "step-end"@)) by {
        assert(ascii_lower_code("ease-out"@[0]) != ascii_lower_code("step-end"@[0]));
    }
    assert(!eq_ignore_ascii_case_spec("step-end"@, "ease-out"@)) by {
        assert(ascii_lower_code("step-end"@[0]) != ascii_lower_code("ease-out"@[0]));
    }
    lemma_keyword_cases(s, ks);
    assert(ks[0] == "linear"@ && ks[1] == "ease"@ && ks[2] == "ease-in"@ && ks[3] == "ease-out"@ && ks[4] == "ease-in-out"@ && ks[5] == "step-start"@ && ks[6] == "step-end"@);
}

/// The color schemes, in any ASCII case, and what they name; no other word names one.
pub proof fn lemma_color_scheme_keywords(s: Seq<char>)
    ensures
        eq_ignore_ascii_case_spec(s, "light"@) ==> color_scheme_keyword(s) == Some(ColorScheme::Light),
        eq_ignore_ascii_case_spec(s, "dark"@) ==> color_scheme_keyword(s) == Some(ColorScheme::Dark),
        !eq_ignore_ascii_case_spec(s, "light"@) && !eq_ignore_ascii_case_spec(s, "dark"@)
            ==> color_scheme_keyword(s) is None,
{
    reveal_strlit("light");
    reveal_strlit("dark");
    let ks = seq!["light"@, "dark"@];
    lemma_keyword_cases(s, ks);
    assert(ks[0] == "light"@ && ks[1] == "dark"@);
}

/// The names of `animation` and its properties, in any ASCII case, and the property each sets; no other name is one of them.
pub proof fn lemma_animation_property_names(s: Seq<char>)
    ensures
        eq_ignore_ascii_case_spec(s, "animation"@) ==> animation_property_name(s) == Some(None::<AnimationPropertyId>),
        eq_ignore_ascii_case_spec(s, "animation-name"@) ==> animation_property_name(s) == Some(Some(AnimationPropertyId::Name)),
        eq_ignore_ascii_case_spec(s, "animation-duration"@) ==> animation_property_name(s) == Some(Some(AnimationPropertyId::Duration)),
        eq_ignore_ascii_case_spec(s, "animation-delay"@) ==> animation_property_name(s) == Some(Some(AnimationPropertyId::Delay)),
        eq_ignore_ascii_case_spec(s, "animation-direction"@) ==> animation_property_name(s) == Some(Some(AnimationPropertyId::Direction)),
        eq_ignore_ascii_case_spec(s, "animation-fill-mode"@) ==> animation_property_name(s) == Some(Some(AnimationPropertyId::FillMode)),
        eq_ignore_ascii_case_spec(s, "animation-iteration-count"@) ==> animation_property_name(s) == Some(Some(AnimationPropertyId::IterationCount)),
        eq_ignore_ascii_case_spec(s, "animation-play-state"@) ==> animation_property_name(s) == Some(Some(AnimationPropertyId::PlayState)),
        eq_ignore_ascii_case_spec(s, "animation-timing-function"@) ==> animation_property_name(s) == Some(Some(AnimationPropertyId::TimingFunction)),
        !eq_ignore_ascii_case_spec(s, "animation"@) && !eq_ignore_ascii_case_spec(s, "animation-name"@) && !eq_ignore_ascii_case_spec(s, "animation-duration"@) && !eq_ignore_ascii_case_spec(s, "animation-delay"@) && !eq_ignore_ascii_case_spec(s, "animation-direction"@) && !eq_ignore_ascii_case_spec(s, "animation-fill-mode"@) && !eq_ignore_ascii_case_spec(s, "animation-iteration-count"@) && !eq_ignore_ascii_case_spec(s, "animation-play-state"@) && !eq_ignore_ascii_case_spec(s, "animation-timing-function"@)
            ==> animation_property_name(s) is None,
{
    reveal_strlit("animation");
    reveal_strlit("animation-name");
    reveal_strlit("animation-duration");
    reveal_strlit("animation-delay");
    reveal_strlit("animation-direction");
    reveal_strlit("animation-fill-mode");
    reveal_strlit("animation-iteration-count");
    reveal_strlit("animation-play-state");
    reveal_strlit("animation-timing-function");
    let ks = seq!["animation"@, "animation-name"@, "animation-duration"@, "animation-delay"@, "animation-direction"@, "animation-fill-mode"@, "animation-iteration-count"@, "animation-play-state"@, "animation-timing-function"@];
    assert(!eq_ignore_ascii_case_spec("animation-direction"@, "animation-fill-mode"@)) by {
        assert(ascii_lower_code("animation-direction"@[10]) != ascii_lower_code("animation-fill-mode"@[10]));
    }
    assert(!eq_ignore_ascii_case_spec("animation-fill-mode"@, "animation-direction"@)) by {
        assert(ascii_lower_code("animation-fill-mode"@[10]) != ascii_lower_code("animation-direction"@[10]));
    }
    assert(!eq_ignore_ascii_case_spec("animation-iteration-count"@, "animation-timing-function"@)) by {
        assert(ascii_lower_code("animation-iteration-count"@[10]) != ascii_lower_code("animation-timing-function"@[10]));
    }
    assert(!eq_ignore_ascii_case_spec("animation-timing-function"@, "animation-iteration-count"@)) by {
        assert(ascii_lower_code("animation-timing-function"@[10]) != ascii_lower_code("animation-iteration-count"@[10]));
    }
    lemma_keyword_cases(s, ks);
    assert(ks[0] == "animation"@ && ks[1] == "animation-name"@ && ks[2] == "animation-duration"@ && ks[3] == "animation-delay"@ && ks[4] == "animation-direction"@ && ks[5] == "animation-fill-mode"@ && ks[6] == "animation-iteration-count"@ && ks[7] == "animation-play-state"@ && ks[8] == "animation-timing-function"@);
}

/// The names of `transition` and its properties, in any ASCII case, and the property each sets; no other name is one of them.
pub proof fn lemma_transition_property_names(s: Seq<char>)
    ensures
        eq_ignore_ascii_case_spec(s, "transition"@) ==> transition_property_name(s) == Some(None::<TransitionPropertyId>),
        eq_ignore_ascii_case_spec(s, "transition-property"@) ==> transition_property_name(s) == Some(Some(TransitionPropertyId::PropertyName)),
        eq_ignore_ascii_case_spec(s, "transition-duration"@) ==> transition_property_name(s) == Some(Some(TransitionPropertyId::Duration)),
        eq_ignore_ascii_case_spec(s, "transition-delay"@) ==> transition_property_name(s) == Some(Some(TransitionPropertyId::Delay)),
        eq_ignore_ascii_case_spec(s, "transition-timing-function"@) ==> transition_property_name(s) == Some(Some(TransitionPropertyId::TimingFunction)),
        !eq_ignore_ascii_case_spec(s, "transition"@) && !eq_ignore_ascii_case_spec(s, "transition-property"@) && !eq_ignore_ascii_case_spec(s, "transition-duration"@) && !eq_ignore_ascii_case_spec(s, "transition-delay"@) && !eq_ignore_ascii_case_spec(s, "transition-timing-function"@)
            ==> transition_property_name(s) is None,
{
    reveal_strlit("transition");
    reveal_strlit("transition-property");
    reveal_strlit("transition-duration");
    reveal_strlit("transition-delay");
    reveal_strlit("transition-timing-function");
    let ks = seq!["transition"@, "transition-property"@, "transition-duration"@, "transition-delay"@, "transition-timing-function"@];
    assert(!eq_ignore_ascii_case_spec("transition-property"@, "transition-duration"@)) by {
        assert(ascii_lower_code("transition-property"@[11]) != ascii_lower_code("transition-duration"@[11]));
    }
    assert(!eq_ignore_ascii_case_spec("transition-duration"@, "transition-property"@)) by {
        assert(ascii_lower_code("transition-duration"@[11]) != ascii_lower_code("transition-property"@[11]));
    }
    lemma_keyword_cases(s, ks);
    assert(ks[0] == "transition"@ && ks[1] == "transition-property"@ && ks[2] == "transition-duration"@ && ks[3] == "transition-delay"@ && ks[4] == "transition-timing-function"@);
}

/// The easing function names, in any ASCII case, and the function each names; no other name is one.
pub proof fn lemma_easing_function_names(s: Seq<char>)
    ensures
        eq_ignore_ascii_case_spec(s, "linear"@) ==> easing_function_name(s) == Some(EasingFunctionName::Linear),
        eq_ignore_ascii_case_spec(s, "steps"@) ==> easing_function_name(s) == Some(EasingFunctionName::Steps),
        eq_ignore_ascii_case_spec(s, "cubic-bezier"@) ==> easing_function_name(s) == Some(EasingFunctionName::CubicBezier),
        !eq_ignore_ascii_case_spec(s, "linear"@) && !eq_ignore_ascii_case_spec(s, "steps"@) && !eq_ignore_ascii_case_spec(s, "cubic-bezier"@)
            ==> easing_function_name(s) is None,
{
    reveal_strlit("linear");
    reveal_strlit("steps");
    reveal_strlit("cubic-bezier");
    let ks = seq!["linear"@, "steps"@, "cubic-bezier"@];
    lemma_keyword_cases(s, ks);
    assert(ks[0] == "linear"@ && ks[1] == "steps"@ && ks[2] == "cubic-bezier"@);
}

} // verus!
