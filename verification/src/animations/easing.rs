//! Easing functions that carry no number: the keywords and the step positions.
//! Curves with control points live with the caller, which samples them.

use vstd::prelude::*;

verus! {

/// Position of the jumps of a `steps()` easing function (CSS `<step-position>`).
#[derive(Debug, Clone, Copy, PartialEq, Eq, Structural, Default)]
pub enum StepPosition {
    /// The first step happens when the animation begins.
    JumpStart,
    /// The last step happens when the animation ends.
    JumpEnd,
    /// No jump at either end.
    JumpNone,
    /// Jumps at both ends.
    JumpBoth,
    /// The first step happens when the animation begins.
    Start,
    /// The last step happens when the animation ends.
    #[default]
    End,
}

/// Where the jumps of a step position fall.
#[derive(Debug, Clone, Copy, PartialEq, Eq, Structural)]
pub enum JumpPosition {
    /// At the start.
    Start,
    /// At the end.
    End,
    /// At neither end.
    Neither,
    /// At both ends.
    Both,
}

impl StepPosition {
    /// Where the jumps fall: `start` is `jump-start` and `end` is `jump-end`.
    pub fn jump_position(self) -> (r: JumpPosition)
        ensures
            r == match self {
                StepPosition::JumpStart | StepPosition::Start => JumpPosition::Start,
                StepPosition::JumpEnd | StepPosition::End => JumpPosition::End,
                StepPosition::JumpNone => JumpPosition::Neither,
                StepPosition::JumpBoth => JumpPosition::Both,
            },
    {
        match self {
            StepPosition::JumpStart => JumpPosition::Start,
            StepPosition::JumpEnd => JumpPosition::End,
            StepPosition::JumpNone => JumpPosition::Neither,
            StepPosition::JumpBoth => JumpPosition::Both,
            StepPosition::Start => JumpPosition::Start,
            StepPosition::End => JumpPosition::End,
        }
    }
}

/// The easing functions named by a keyword.
#[derive(Debug, Clone, Copy, PartialEq, Eq, Structural)]
pub enum EasingKeyword {
    /// `linear`
    Linear,
    /// `ease`
    Ease,
    /// `ease-in`
    EaseIn,
    /// `ease-out`
    EaseOut,
    /// `ease-in-out`
    EaseInOut,
    /// `step-start`: one step, jumping at the start.
    StepStart,
    /// `step-end`: one step, jumping at the end.
    StepEnd,
}

/// The easing functions written as a function call.
#[derive(Debug, Clone, Copy, PartialEq, Eq, Structural)]
pub enum EasingFunctionName {
    /// `linear(...)`: a curve through points.
    Linear,
    /// `steps(...)`: equal steps.
    Steps,
    /// `cubic-bezier(...)`: a cubic Bézier curve.
    CubicBezier,
}

} // verus!
