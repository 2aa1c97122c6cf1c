//! Applying computed values: for each property, which value, if any, is
//! handed on as a change once the style and the running animations and
//! transitions have been computed.

use vstd::prelude::*;

verus! {

/// The value a property gets as a change, if any.
#[derive(Debug, Clone, Copy, PartialEq, Eq, Structural)]
pub enum ChangeChoice {
    /// No change.
    Keep,
    /// The value the style computed (now also the computed value).
    Pending,
    /// The value an animation or a transition emits.
    Animation,
}

/// The change of one property. `pending_differs`: the value the style
/// computed differs from the computed one. `animation_emits`: an animation
/// or a transition emits a value. `animation_differs`: that value differs
/// from the one emitted last (or, when none was, from the computed value
/// before). `animation_stopped`: no value is emitted, and one was last time.
/// `pending_differs_from_last_animation`: the value the style computed
/// differs from the one emitted last.
///
/// While a value is emitted, the style's value is never applied: the
/// emitted value is, when it changed. When emitting stops, the style's value
/// comes back unless it equals the last emitted one. Otherwise a changed
/// style value is applied.
pub open spec fn computed_change_spec(
    pending_differs: bool,
    animation_emits: bool,
    animation_differs: bool,
    animation_stopped: bool,
    pending_differs_from_last_animation: bool,
) -> ChangeChoice {
    if animation_emits {
        if animation_differs { ChangeChoice::Animation } else { ChangeChoice::Keep }
    } else if animation_stopped {
        if pending_differs_from_last_animation { ChangeChoice::Pending } else { ChangeChoice::Keep }
    } else if pending_differs {
        ChangeChoice::Pending
    } else {
        ChangeChoice::Keep
    }
}

/// Decides the change of one property; see [`computed_change_spec`].
pub fn computed_change(
    pending_differs: bool,
    animation_emits: bool,
    animation_differs: bool,
    animation_stopped: bool,
    pending_differs_from_last_animation: bool,
) -> (r: ChangeChoice)
    ensures
        r == computed_change_spec(pending_differs, animation_emits, animation_differs, animation_stopped,
            pending_differs_from_last_animation),
{
    let mut choice = ChangeChoice::Keep;
    if pending_differs {
        choice = ChangeChoice::Pending;
    }
    if animation_emits {
        choice = ChangeChoice::Keep;
        if animation_differs {
            choice = ChangeChoice::Animation;
        }
    } else if animation_stopped {
        choice = ChangeChoice::Keep;
        if pending_differs_from_last_animation {
            choice = ChangeChoice::Pending;
        }
    }
    choice
}

/// While an animation or a transition emits a value, the style's own value
/// is never handed on.
pub proof fn lemma_animation_masks_style(
    pending_differs: bool,
    animation_differs: bool,
    animation_stopped: bool,
    pending_differs_from_last_animation: bool,
)
    ensures
        computed_change_spec(pending_differs, true, animation_differs, animation_stopped,
            pending_differs_from_last_animation) != ChangeChoice::Pending,
{
}

/// The animation's value is handed on only while it is emitted and has
/// changed; while nothing is emitted and nothing stopped, the style's value
/// is handed on exactly when it changed; when emitting stops, the style's
/// value comes back exactly when it differs from the last emitted one.
pub proof fn lemma_computed_change_law(
    pending_differs: bool,
    animation_emits: bool,
    animation_differs: bool,
    animation_stopped: bool,
    pending_differs_from_last_animation: bool,
)
    ensures
        ({
            let c = computed_change_spec(pending_differs, animation_emits, animation_differs, animation_stopped,
                pending_differs_from_last_animation);
            &&& (c == ChangeChoice::Animation) <==> (animation_emits && animation_differs)
            &&& !animation_emits && !animation_stopped ==> ((c == ChangeChoice::Pending) <==> pending_differs)
            &&& !animation_emits && animation_stopped ==> ((c == ChangeChoice::Pending) <==> pending_differs_from_last_animation)
            &&& (c == ChangeChoice::Keep) ==> !(animation_emits && animation_differs)
        }),
{
}

} // verus!

