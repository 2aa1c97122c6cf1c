//! Which step of the style pipeline an entity waits for.
//!
//! The pipeline runs reset, calculate style, resolve property values,
//! compute property values and apply pending properties, in this order.
//! Asking for a step while an earlier one is pending changes nothing: the
//! earlier step leads to the later one anyway.

use vstd::prelude::*;

verus! {

/// A step of the style pipeline, or none.
#[derive(Debug, Clone, Copy, PartialEq, Eq, Structural, Default)]
pub enum StyleSystem {
    /// Nothing to do.
    Idle,
    /// Reset animations and transitions, then recalculate everything.
    #[default]
    Reset,
    /// Recalculate which rules apply.
    CalculateStyle,
    /// Resolve property values again (a variable may have changed).
    ResolvePropertyValues,
    /// Compute property values again (an inherited value may have changed).
    ComputePropertyValues,
    /// Apply the pending property values.
    ApplyPendingProperties,
}

/// Position of a step in the pipeline; nothing to do comes after every step.
pub open spec fn stage(s: StyleSystem) -> int {
    match s {
        StyleSystem::Reset => 0,
        StyleSystem::CalculateStyle => 1,
        StyleSystem::ResolvePropertyValues => 2,
        StyleSystem::ComputePropertyValues => 3,
        StyleSystem::ApplyPendingProperties => 4,
        StyleSystem::Idle => 5,
    }
}

/// The step after `s`.
pub open spec fn next_system(s: StyleSystem) -> StyleSystem {
    match s {
        StyleSystem::Idle => StyleSystem::Idle,
        StyleSystem::Reset => StyleSystem::CalculateStyle,
        StyleSystem::CalculateStyle => StyleSystem::ResolvePropertyValues,
        StyleSystem::ResolvePropertyValues => StyleSystem::ComputePropertyValues,
        StyleSystem::ComputePropertyValues => StyleSystem::ApplyPendingProperties,
        StyleSystem::ApplyPendingProperties => StyleSystem::Idle,
    }
}

/// The earlier of two steps.
pub open spec fn earliest(a: StyleSystem, b: StyleSystem) -> StyleSystem {
    if stage(a) <= stage(b) { a } else { b }
}

impl StyleSystem {
    /// The step after this one.
    pub fn into_next_system(self) -> (r: StyleSystem)
        ensures
            r == next_system(self),
    {
        match self {
            StyleSystem::Idle => StyleSystem::Idle,
            StyleSystem::Reset => StyleSystem::CalculateStyle,
            StyleSystem::CalculateStyle => StyleSystem::ResolvePropertyValues,
            StyleSystem::ResolvePropertyValues => StyleSystem::ComputePropertyValues,
            StyleSystem::ComputePropertyValues => StyleSystem::ApplyPendingProperties,
            StyleSystem::ApplyPendingProperties => StyleSystem::Idle,
        }
    }
}

/// The pipeline step an entity waits for.
#[derive(Debug, Clone, Copy, PartialEq, Eq, Structural, Default)]
pub struct StyleMarkers {
    /// The step to run next.
    pub current_system: StyleSystem,
}

impl StyleMarkers {
    /// Marks the entity to be reset: animations and transitions restart and all
    /// styles are recalculated.
    pub fn reset(&mut self)
        ensures
            final(self).current_system == StyleSystem::Reset,
    {
        self.current_system = StyleSystem::Reset;
    }

    /// Marks the entity as having nothing to do.
    pub fn set_to_idle(&mut self)
        ensures
            final(self).current_system == StyleSystem::Idle,
    {
        self.current_system = StyleSystem::Idle;
    }

    /// Whether the entity waits for `system`.
    fn is_at(&self, system: StyleSystem) -> (r: bool)
        ensures
            r == (self.current_system == system),
    {
        self.current_system == system
    }

    /// Moves on from `system`, which must be the current step.
    fn finish(&mut self, system: StyleSystem)
        requires
            old(self).current_system == system,
        ensures
            final(self).current_system == next_system(system),
    {
        self.current_system = self.current_system.into_next_system();
    }

    /// Asks for `system`, unless an earlier step is pending.
    fn request(&mut self, system: StyleSystem)
        requires
            stage(system) >= 2,
            old(self).current_system == StyleSystem::Idle || old(self).current_system == system
                || stage(old(self).current_system) <= 1,
        ensures
            final(self).current_system == earliest(old(self).current_system, system),
    {
        if self.current_system == StyleSystem::Reset || self.current_system == StyleSystem::CalculateStyle {
            return;
        }
        self.current_system = system;
    }

    /// Whether the entity waits to be reset.
    pub fn needs_reset(&self) -> (r: bool)
        ensures
            r == (self.current_system == StyleSystem::Reset),
    {
        self.is_at(StyleSystem::Reset)
    }

    /// Moves on from the reset.
    pub fn finish_reset(&mut self)
        requires
            old(self).current_system == StyleSystem::Reset,
        ensures
            final(self).current_system == StyleSystem::CalculateStyle,
    {
        self.finish(StyleSystem::Reset);
    }

    /// Marks the entity to get its style recalculated; nothing else may be pending.
    pub fn recalculate_style(&mut self)
        requires
            old(self).current_system == StyleSystem::Idle || old(self).current_system == StyleSystem::CalculateStyle,
        ensures
            final(self).current_system == StyleSystem::CalculateStyle,
    {
        self.current_system = StyleSystem::CalculateStyle;
    }

    /// Whether the entity waits for its style to be calculated.
    pub fn needs_calculate_style(&self) -> (r: bool)
        ensures
            r == (self.current_system == StyleSystem::CalculateStyle),
    {
        self.is_at(StyleSystem::CalculateStyle)
    }

    /// Moves on from calculating the style.
    pub fn finish_calculate_style(&mut self)
        requires
            old(self).current_system == StyleSystem::CalculateStyle,
        ensures
            final(self).current_system == StyleSystem::ResolvePropertyValues,
    {
        self.finish(StyleSystem::CalculateStyle);
    }

    /// Asks for property values to be resolved again.
    pub fn set_needs_resolve_property_values(&mut self)
        requires
            stage(old(self).current_system) <= 2 || old(self).current_system == StyleSystem::Idle,
        ensures
            final(self).current_system == earliest(old(self).current_system, StyleSystem::ResolvePropertyValues),
    {
        self.request(StyleSystem::ResolvePropertyValues);
    }

    /// Whether the entity waits for its property values to be resolved.
    pub fn needs_resolve_property_values(&self) -> (r: bool)
        ensures
            r == (self.current_system == StyleSystem::ResolvePropertyValues),
    {
        self.is_at(StyleSystem::ResolvePropertyValues)
    }

    /// Moves on from resolving property values.
    pub fn finish_resolve_property_values(&mut self)
        requires
            old(self).current_system == StyleSystem::ResolvePropertyValues,
        ensures
            final(self).current_system == StyleSystem::ComputePropertyValues,
    {
        self.finish(StyleSystem::ResolvePropertyValues);
    }

    /// Asks for property values to be computed again.
    pub fn set_needs_compute_property_values(&mut self)
        requires
            stage(old(self).current_system) <= 1 || old(self).current_system == StyleSystem::ComputePropertyValues
                || old(self).current_system == StyleSystem::Idle,
        ensures
            final(self).current_system == earliest(old(self).current_system, StyleSystem::ComputePropertyValues),
    {
        self.request(StyleSystem::ComputePropertyValues);
    }

    /// Whether the entity waits for its property values to be computed.
    pub fn needs_compute_property_values(&self) -> (r: bool)
        ensures
            r == (self.current_system == StyleSystem::ComputePropertyValues),
    {
        self.is_at(StyleSystem::ComputePropertyValues)
    }

    /// Moves on from computing property values.
    pub fn finish_compute_property_values(&mut self)
        requires
            old(self).current_system == StyleSystem::ComputePropertyValues,
        ensures
            final(self).current_system == StyleSystem::ApplyPendingProperties,
    {
        self.finish(StyleSystem::ComputePropertyValues);
    }

    /// Asks for pending properties to be applied.
    pub fn set_needs_apply_pending_properties(&mut self)
        requires
            stage(old(self).current_system) <= 1 || old(self).current_system == StyleSystem::ApplyPendingProperties
                || old(self).current_system == StyleSystem::Idle,
        ensures
            final(self).current_system == earliest(old(self).current_system, StyleSystem::ApplyPendingProperties),
    {
        self.request(StyleSystem::ApplyPendingProperties);
    }

    /// Whether the entity waits for pending properties to be applied.
    pub fn needs_apply_pending_properties(&self) -> (r: bool)
        ensures
            r == (self.current_system == StyleSystem::ApplyPendingProperties),
    {
        self.is_at(StyleSystem::ApplyPendingProperties)
    }

    /// Moves on from applying pending properties.
    pub fn finish_apply_pending_properties(&mut self)
        requires
            old(self).current_system == StyleSystem::ApplyPendingProperties,
        ensures
            final(self).current_system == StyleSystem::Idle,
    {
        self.finish(StyleSystem::ApplyPendingProperties);
    }
}

/// After a reset, the pipeline runs every step once, in order, and then has
/// nothing to do: five moves lead from reset to idle, through each step.
pub proof fn lemma_reset_runs_every_step()
    ensures
        next_system(StyleSystem::Reset) == StyleSystem::CalculateStyle,
        next_system(next_system(StyleSystem::Reset)) == StyleSystem::ResolvePropertyValues,
        next_system(next_system(next_system(StyleSystem::Reset))) == StyleSystem::ComputePropertyValues,
        next_system(next_system(next_system(next_system(StyleSystem::Reset)))) == StyleSystem::ApplyPendingProperties,
        next_system(next_system(next_system(next_system(next_system(StyleSystem::Reset))))) == StyleSystem::Idle,
{
}

/// Every move goes forward in the pipeline, and idle stays idle.
pub proof fn lemma_moves_go_forward(s: StyleSystem)
    ensures
        s != StyleSystem::Idle ==> stage(next_system(s)) == stage(s) + 1,
        s == StyleSystem::Idle ==> next_system(s) == StyleSystem::Idle,
{
}

/// A request never sends an entity back: the step it waits for is never
/// later than before, and never later than the one asked for.
pub proof fn lemma_request_never_goes_back(current: StyleSystem, requested: StyleSystem)
    ensures
        stage(earliest(current, requested)) <= stage(current),
        stage(earliest(current, requested)) <= stage(requested),
        earliest(current, requested) == current || earliest(current, requested) == requested,
{
}

} // verus!
