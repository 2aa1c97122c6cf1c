//! Errors met while reading a style sheet.

use vstd::prelude::*;

verus! {

/// A position in the source, as `cssparser` counts it: lines from zero,
/// columns from one.
#[derive(Debug, Clone, Copy, PartialEq, Eq, Structural)]
pub struct SourceLocation {
    /// Line, from zero.
    pub line: u32,
    /// Column, from one.
    pub column: u32,
}

/// What went wrong.
#[derive(Debug, Clone, Copy, PartialEq, Eq, Structural)]
pub enum CssErrorKind {
    /// A token that does not fit here.
    UnexpectedToken,
    /// The input ended too early.
    EndOfInput,
    /// Another error of the tokenizer.
    InvalidInput,
    /// Not an animation direction.
    InvalidAnimationDirection,
    /// Not an animation fill mode.
    InvalidAnimationFillMode,
    /// Not an animation play state.
    InvalidAnimationPlayState,
    /// Not an iteration count.
    InvalidIterationCount,
    /// Not an animation name.
    InvalidAnimationName,
    /// Not a property name.
    InvalidTransitionPropertyName,
    /// Not a step position.
    InvalidStepPosition,
    /// Not an easing function keyword.
    InvalidEasingFunctionKeyword,
    /// A property a font face does not have.
    UnexpectedFontFaceProperty,
    /// A font face without family name or source.
    IncompleteFontFaceRule,
    /// Not a color scheme.
    UnexpectedColorScheme,
    /// A property name that is not `animation` or one of `animation-*`.
    InvalidAnimationProperty,
    /// A property name that is not `transition` or one of `transition-*`.
    InvalidTransitionProperty,
    /// A function that is not an easing function.
    InvalidEasingFunctionName,
    /// A token that is neither a keyword nor a function.
    InvalidEasingFunctionToken,
    /// Not a duration.
    InvalidDuration,
    /// Not a font weight.
    InvalidFontWeight,
    /// A property name that no property or shorthand has.
    PropertyNotRecognized,
    /// A property whose type has no configured way of being read.
    NonParseableType,
}

/// An error with the place it was found at, when known.
#[derive(Debug, Clone, Copy, PartialEq, Eq, Structural)]
pub struct CssError {
    /// What went wrong.
    pub kind: CssErrorKind,
    /// Where.
    pub location: Option<SourceLocation>,
}

/// The description of an error of kind `kind`.
pub open spec fn error_message(kind: CssErrorKind) -> Seq<char> {
    match kind {
        CssErrorKind::UnexpectedToken => "unexpected token"@,
        CssErrorKind::EndOfInput => "unexpected end of input"@,
        CssErrorKind::InvalidInput => "invalid input"@,
        CssErrorKind::InvalidAnimationDirection =>
            "Expected a valid animation direction. Valid values are: 'normal' | 'reverse' | 'alternate' | 'alternate-reverse'"@,
        CssErrorKind::InvalidAnimationFillMode =>
            "Expected a valid fill mode. Valid values are: 'none' | 'forwards' | 'backwards' | 'both'"@,
        CssErrorKind::InvalidAnimationPlayState =>
            "Expected a valid play state. Valid values are: 'running' | 'paused'"@,
        CssErrorKind::InvalidIterationCount => "Expected a whole number, like 3, or 'infinite'"@,
        CssErrorKind::InvalidAnimationName => "Expected animation name, like 'slide', or '\"anim\"'"@,
        CssErrorKind::InvalidTransitionPropertyName => "Expected a property name, like 'width' or 'top'"@,
        CssErrorKind::InvalidStepPosition =>
            "Expected a step position name. Valid values are: 'jump-start' | 'jump-end' | 'jump-none' | 'jump-both' | 'start' | 'end'"@,
        CssErrorKind::InvalidEasingFunctionKeyword =>
            "Expected a valid easing function. Valid values are: 'linear' | 'ease' | 'ease-in' | 'ease-out' | 'ease-in-out' | 'step-start' | 'step-end'"@,
        CssErrorKind::UnexpectedFontFaceProperty =>
            "This property is not recognized. Only 'font-family' and 'src' can be used"@,
        CssErrorKind::IncompleteFontFaceRule => "A font face requires 'font-family' and 'src' provided"@,
        CssErrorKind::UnexpectedColorScheme => "Only valid color schemes are 'light' or 'dark'"@,
        CssErrorKind::InvalidAnimationProperty => "Property is not recognized as a valid animation property"@,
        CssErrorKind::InvalidTransitionProperty => "Property is not recognized as a valid transition property"@,
        CssErrorKind::InvalidEasingFunctionName =>
            "Expected a valid easing function name. Valid values are: 'linear()' | 'steps()' | cubic-bezier()"@,
        CssErrorKind::InvalidEasingFunctionToken =>
            "Expected a valid easing function token. Valid values are: 'linear' | 'ease' | 'steps(..)'"@,
        CssErrorKind::InvalidDuration => "Expected a dimensional number, like 5s"@,
        CssErrorKind::InvalidFontWeight => "This is not valid FontWeight token. Valid weights are 'normal' | 'bold' | 300"@,
        CssErrorKind::PropertyNotRecognized => "Property is not recognized as a valid property name"@,
        CssErrorKind::NonParseableType => "Property does not have a configured way of parsing it"@,
    }
}

impl CssError {
    /// An error at a known place.
    pub fn new_located(kind: CssErrorKind, location: SourceLocation) -> (r: CssError)
        ensures
            r == (CssError { kind, location: Some(location) }),
    {
        CssError { kind, location: Some(location) }
    }

    /// An error at no known place.
    pub fn new_unlocated(kind: CssErrorKind) -> (r: CssError)
        ensures
            r == (CssError { kind, location: None }),
    {
        CssError { kind, location: None }
    }

    /// A description of the error.
    pub fn message(&self) -> (r: &'static str)
        ensures
            r@ == error_message(self.kind),
    {
        match self.kind {
            CssErrorKind::UnexpectedToken => "unexpected token",
            CssErrorKind::EndOfInput => "unexpected end of input",
            CssErrorKind::InvalidInput => "invalid input",
            CssErrorKind::InvalidAnimationDirection =>
                "Expected a valid animation direction. Valid values are: 'normal' | 'reverse' | 'alternate' | 'alternate-reverse'",
            CssErrorKind::InvalidAnimationFillMode =>
                "Expected a valid fill mode. Valid values are: 'none' | 'forwards' | 'backwards' | 'both'",
            CssErrorKind::InvalidAnimationPlayState =>
                "Expected a valid play state. Valid values are: 'running' | 'paused'",
            CssErrorKind::InvalidIterationCount => "Expected a whole number, like 3, or 'infinite'",
            CssErrorKind::InvalidAnimationName => "Expected animation name, like 'slide', or '\"anim\"'",
            CssErrorKind::InvalidTransitionPropertyName => "Expected a property name, like 'width' or 'top'",
            CssErrorKind::InvalidStepPosition =>
                "Expected a step position name. Valid values are: 'jump-start' | 'jump-end' | 'jump-none' | 'jump-both' | 'start' | 'end'",
            CssErrorKind::InvalidEasingFunctionKeyword =>
                "Expected a valid easing function. Valid values are: 'linear' | 'ease' | 'ease-in' | 'ease-out' | 'ease-in-out' | 'step-start' | 'step-end'",
            CssErrorKind::UnexpectedFontFaceProperty =>
                "This property is not recognized. Only 'font-family' and 'src' can be used",
            CssErrorKind::IncompleteFontFaceRule => "A font face requires 'font-family' and 'src' provided",
            CssErrorKind::UnexpectedColorScheme => "Only valid color schemes are 'light' or 'dark'",
            CssErrorKind::InvalidAnimationProperty => "Property is not recognized as a valid animation property",
            CssErrorKind::InvalidTransitionProperty => "Property is not recognized as a valid transition property",
            CssErrorKind::InvalidEasingFunctionName =>
                "Expected a valid easing function name. Valid values are: 'linear()' | 'steps()' | cubic-bezier()",
            CssErrorKind::InvalidEasingFunctionToken =>
                "Expected a valid easing function token. Valid values are: 'linear' | 'ease' | 'steps(..)'",
            CssErrorKind::InvalidDuration => "Expected a dimensional number, like 5s",
            CssErrorKind::InvalidFontWeight => "This is not valid FontWeight token. Valid weights are 'normal' | 'bold' | 300",
            CssErrorKind::PropertyNotRecognized => "Property is not recognized as a valid property name",
            CssErrorKind::NonParseableType => "Property does not have a configured way of parsing it",
        }
    }
}

} // verus!
