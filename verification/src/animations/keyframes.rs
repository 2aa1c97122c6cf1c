//! Filling keyframes that leave a property out.
//!
//! Keyframes are sorted by time, the first at 0% and the last at 100%. A
//! property missing from the first or the last keyframe takes the element's
//! current value there; missing from a keyframe in between, it is
//! interpolated between the keyframe just before (itself possibly filled)
//! and the next keyframe that defines it (or the last one).

use vstd::prelude::*;
use crate::animations::properties::AnimationSpecificValue;
use crate::css::error::CssError;

verus! {

/// How a keyframe gets the value of a property.
#[derive(Debug, Clone, Copy, PartialEq, Eq, Structural)]
pub enum KeyframeFill {
    /// The keyframe defines it.
    Defined,
    /// The element's current value.
    CurrentValue,
    /// Interpolated at the keyframe's time between the values at these keyframes.
    Interpolate {
        /// The keyframe just before.
        previous: usize,
        /// The next keyframe that defines the property, or the last keyframe.
        next: usize,
    },
}

/// The first keyframe at or after `i` that defines the property, or the last one.
pub open spec fn next_defined(defined: Seq<bool>, i: int) -> int
    decreases defined.len() - i,
{
    if i >= defined.len() - 1 || defined[i] {
        i
    } else {
        next_defined(defined, i + 1)
    }
}

/// How keyframe `i` gets the value of a property defined at the keyframes where `defined` holds.
pub open spec fn keyframe_fill(defined: Seq<bool>, i: int) -> KeyframeFill {
    if defined[i] {
        KeyframeFill::Defined
    } else if i == 0 || i == defined.len() - 1 {
        KeyframeFill::CurrentValue
    } else {
        KeyframeFill::Interpolate { previous: (i - 1) as usize, next: next_defined(defined, i) as usize }
    }
}

/// The next keyframe after `i` found is later, defines the property or is the last one,
/// and no keyframe in between defines it.
pub proof fn lemma_next_defined(defined: Seq<bool>, i: int)
    requires
        0 <= i < defined.len(),
    ensures
        i <= next_defined(defined, i) < defined.len(),
        defined[next_defined(defined, i)] || next_defined(defined, i) == defined.len() - 1,
        forall|k: int| i <= k < next_defined(defined, i) ==> !defined[k],
    decreases defined.len() - i,
{
    if !(i >= defined.len() - 1 || defined[i]) {
        lemma_next_defined(defined, i + 1);
    }
}

/// How each keyframe gets the value of a property, given at which keyframes it is defined.
pub fn keyframe_fill_plan(defined: &Vec<bool>) -> (r: Vec<KeyframeFill>)
    requires
        defined@.len() >= 2,
    ensures
        r@.len() == defined@.len(),
        forall|i: int| 0 <= i < r@.len() ==> #[trigger] r@[i] == keyframe_fill(defined@, i),
{
    let n = defined.len();
    let mut plan: Vec<KeyframeFill> = Vec::new();
    let mut i: usize = 0;
    while i < n
        invariant
            n == defined@.len(),
            n >= 2,
            i <= n,
            plan@.len() == i,
            forall|k: int| 0 <= k < i ==> #[trigger] plan@[k] == keyframe_fill(defined@, k),
        decreases n - i,
    {
        if defined[i] {
            plan.push(KeyframeFill::Defined);
        } else if i == 0 || i == n - 1 {
            plan.push(KeyframeFill::CurrentValue);
        } else {
            let mut next = i;
            while next < n - 1 && !defined[next]
                invariant
                    i <= next <= n - 1,
                    n == defined@.len(),
                    next_defined(defined@, next as int) == next_defined(defined@, i as int),
                decreases n - next,
            {
                next = next + 1;
            }
            plan.push(KeyframeFill::Interpolate { previous: i - 1, next });
        }
        i = i + 1;
    }
    plan
}

/// Whether an animation keeps a property: only when every keyframe
/// resolved a value for it (`resolved`, one flag per keyframe); otherwise
/// the property is dropped from every keyframe.
pub fn keep_keyframe_property(resolved: &Vec<bool>) -> (r: bool)
    ensures
        r == forall|i: int| 0 <= i < resolved@.len() ==> #[trigger] resolved@[i],
{
    let mut i: usize = 0;
    while i < resolved.len()
        invariant
            i <= resolved@.len(),
            forall|k: int| 0 <= k < i ==> #[trigger] resolved@[k],
        decreases resolved@.len() - i,
    {
        if !resolved[i] {
            return false;
        }
        i = i + 1;
    }
    true
}

/// The timing function of a keyframe: the one its
/// `animation-timing-function` resolved to, when the first value resolved
/// is one; the animation's default when the keyframe gives none, when its
/// variables fail to resolve, or when the value is not a timing function.
pub open spec fn keyframe_timing_spec<E>(given: Option<Result<Vec<AnimationSpecificValue<E>>, CssError>>, default: E) -> E {
    match given {
        Some(Ok(values)) => match values@[0] {
            AnimationSpecificValue::TimingFunction(e) => e,
            _ => default,
        },
        _ => default,
    }
}

/// The timing function of a keyframe; see [`keyframe_timing_spec`].
pub fn keyframe_timing_function<E>(given: Option<Result<Vec<AnimationSpecificValue<E>>, CssError>>, default: E) -> (r: E)
    requires
        given matches Some(Ok(values)) ==> values@.len() > 0,
    ensures
        r == keyframe_timing_spec(given, default),
{
    match given {
        Some(Ok(values)) => {
            let mut values = values;
            let first = values.remove(0);
            match first {
                AnimationSpecificValue::TimingFunction(e) => e,
                _ => default,
            }
        },
        _ => default,
    }
}

/// How a keyframe gets a property's value: from itself exactly when it
/// defines it; otherwise the current value at the first and the last
/// keyframe; otherwise interpolated between the keyframe just before and the
/// first later keyframe that defines it (or the last keyframe), with no
/// keyframe in between defining it.
pub proof fn lemma_keyframe_fill_law(defined: Seq<bool>, i: int)
    requires
        2 <= defined.len() <= usize::MAX,
        0 <= i < defined.len(),
    ensures
        (keyframe_fill(defined, i) == KeyframeFill::Defined) <==> defined[i],
        !defined[i] && (i == 0 || i == defined.len() - 1) ==> keyframe_fill(defined, i) == KeyframeFill::CurrentValue,
        !defined[i] && 0 < i < defined.len() - 1 ==> (keyframe_fill(defined, i) matches KeyframeFill::Interpolate { previous, next }
            && previous == i - 1 && i < next < defined.len()
            && (defined[next as int] || next == defined.len() - 1)
            && forall|k: int| i <= k < next ==> !defined[k]),
{
    if !defined[i] && 0 < i < defined.len() - 1 {
        lemma_next_defined(defined, i);
        let n = next_defined(defined, i);
        assert(n != i);
        assert((n as usize) as int == n);
        assert(((i - 1) as usize) as int == i - 1);
    }
}

} // verus!

