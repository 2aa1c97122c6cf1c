//! CSS input: keywords, errors, tokens read from a `cssparser` parser, and
//! the parts of declarations whose meaning this crate decides.

pub mod error;
pub mod keywords;
pub mod shorthand;
pub mod input;
pub mod values;
pub mod font_face;
pub mod ruleset;
pub mod inline_style;
pub mod font;
pub mod animation_property;
pub mod stylesheet;
