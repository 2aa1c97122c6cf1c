//! Per-entity style bookkeeping.

pub mod marker;
pub mod runtime;
pub mod computed;
