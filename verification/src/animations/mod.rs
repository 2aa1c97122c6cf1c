//! Keyframe animations and transitions: their timing state machines and the
//! resolution of `animation-*` / `transition-*` properties.

pub mod animation;
pub mod properties;
pub mod transition;
pub mod easing;
pub mod keyframes;
