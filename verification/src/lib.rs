//! Verified core of the flair style engine: cascade layers, animation and
//! transition timing, animation property resolution and CSS keyword parsing.

pub mod animations;
pub mod builder;
pub mod cascade;
pub mod components;
pub mod css;
pub mod layers;
pub mod placeholder;
pub mod pseudo_state;
pub mod time;
