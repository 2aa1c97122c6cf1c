//! `animation`, `transition` and their sub-property declarations: which property a declaration
//! sets and the values it gives, from the tokens of its comma-separated
//! items, each token already read as each sub-property would read it.

use vstd::prelude::*;
use crate::animations::properties::{AnimationProperty, AnimationPropertyId, AnimationSpecificValue, AnimationValues, TransitionPropertyId};
use crate::css::error::{CssError, CssErrorKind, SourceLocation};
use crate::css::keywords::{animation_property_from_name, animation_property_name, transition_property_from_name, transition_property_name};
use crate::css::shorthand::{animation_offered_value, animation_shorthand_from, parse_animation_shorthand, parse_transition_shorthand,
    transition_shorthand_from, AnimationShorthandToken, TransitionShorthandToken};

verus! {

/// The value a token gives to one `animation-*` property, if it reads as one.
pub open spec fn single_value<E>(id: AnimationPropertyId, t: AnimationShorthandToken<E>) -> Option<AnimationSpecificValue<E>> {
    match id {
        AnimationPropertyId::Name => match t.name {
            Some(n) => Some(AnimationSpecificValue::Name(n)),
            None => None,
        },
        AnimationPropertyId::Duration | AnimationPropertyId::Delay => match t.duration {
            Some(d) => Some(AnimationSpecificValue::Duration(d)),
            None => None,
        },
        AnimationPropertyId::Direction => match t.direction {
            Some(d) => Some(AnimationSpecificValue::Direction(d)),
            None => None,
        },
        AnimationPropertyId::FillMode => match t.fill_mode {
            Some(f) => Some(AnimationSpecificValue::FillMode(f)),
            None => None,
        },
        AnimationPropertyId::IterationCount => match t.iteration_count {
            Some(c) => Some(AnimationSpecificValue::IterationCount(c)),
            None => None,
        },
        AnimationPropertyId::PlayState => match t.play_state {
            Some(p) => Some(AnimationSpecificValue::PlayState(p)),
            None => None,
        },
        AnimationPropertyId::TimingFunction => match t.timing_function {
            Some(e) => Some(AnimationSpecificValue::TimingFunction(e)),
            None => None,
        },
    }
}

/// The error of a value that does not read as property `id`.
pub open spec fn value_error_kind(id: AnimationPropertyId) -> CssErrorKind {
    match id {
        AnimationPropertyId::Name => CssErrorKind::InvalidAnimationName,
        AnimationPropertyId::Duration | AnimationPropertyId::Delay => CssErrorKind::InvalidDuration,
        AnimationPropertyId::Direction => CssErrorKind::InvalidAnimationDirection,
        AnimationPropertyId::FillMode => CssErrorKind::InvalidAnimationFillMode,
        AnimationPropertyId::IterationCount => CssErrorKind::InvalidIterationCount,
        AnimationPropertyId::PlayState => CssErrorKind::InvalidAnimationPlayState,
        AnimationPropertyId::TimingFunction => CssErrorKind::InvalidEasingFunctionKeyword,
    }
}

/// Whether every item is one token that reads as property `id`.
pub open spec fn single_items_ok<E>(id: AnimationPropertyId, items: Seq<Vec<AnimationShorthandToken<E>>>) -> bool {
    forall|i: int| 0 <= i < items.len() ==> (#[trigger] items[i])@.len() == 1 && single_value(id, items[i]@[0]) is Some
}

/// Whether every item of the shorthand is read to its end, and none is empty.
pub open spec fn shorthand_items_ok<E>(items: Seq<Vec<AnimationShorthandToken<E>>>) -> bool {
    forall|i: int| 0 <= i < items.len() ==> (#[trigger] items[i])@.len() > 0
        && animation_shorthand_from(items[i]@, 0, Seq::empty()).1 == items[i]@.len()
}

/// An error at no known place.
pub open spec fn unlocated(kind: CssErrorKind) -> CssError {
    CssError { kind, location: None }
}

fn value_error(id: AnimationPropertyId) -> (r: CssError)
    ensures
        r == unlocated(value_error_kind(id)),
{
    let kind = match id {
        AnimationPropertyId::Name => CssErrorKind::InvalidAnimationName,
        AnimationPropertyId::Duration | AnimationPropertyId::Delay => CssErrorKind::InvalidDuration,
        AnimationPropertyId::Direction => CssErrorKind::InvalidAnimationDirection,
        AnimationPropertyId::FillMode => CssErrorKind::InvalidAnimationFillMode,
        AnimationPropertyId::IterationCount => CssErrorKind::InvalidIterationCount,
        AnimationPropertyId::PlayState => CssErrorKind::InvalidAnimationPlayState,
        AnimationPropertyId::TimingFunction => CssErrorKind::InvalidEasingFunctionKeyword,
    };
    CssError::new_unlocated(kind)
}

fn single_value_of<E>(id: AnimationPropertyId, t: AnimationShorthandToken<E>) -> (r: Option<AnimationSpecificValue<E>>)
    ensures
        r == single_value(id, t),
{
    match id {
        AnimationPropertyId::Name => match t.name {
            Some(n) => Some(AnimationSpecificValue::Name(n)),
            None => None,
        },
        AnimationPropertyId::Duration | AnimationPropertyId::Delay => match t.duration {
            Some(d) => Some(AnimationSpecificValue::Duration(d)),
            None => None,
        },
        AnimationPropertyId::Direction => match t.direction {
            Some(d) => Some(AnimationSpecificValue::Direction(d)),
            None => None,
        },
        AnimationPropertyId::FillMode => match t.fill_mode {
            Some(f) => Some(AnimationSpecificValue::FillMode(f)),
            None => None,
        },
        AnimationPropertyId::IterationCount => match t.iteration_count {
            Some(c) => Some(AnimationSpecificValue::IterationCount(c)),
            None => None,
        },
        AnimationPropertyId::PlayState => match t.play_state {
            Some(p) => Some(AnimationSpecificValue::PlayState(p)),
            None => None,
        },
        AnimationPropertyId::TimingFunction => match t.timing_function {
            Some(e) => Some(AnimationSpecificValue::TimingFunction(e)),
            None => None,
        },
    }
}

/// An `animation` or `animation-*` declaration from its name and the tokens
/// of its comma-separated items (`is_none`: the value is the single keyword
/// `none`). An unknown name is an error. The shorthand gives, per item, the
/// properties the item sets; an item that is empty or not read to its end
/// is an unexpected token. A single property needs one token per item that
/// reads as it, else the property's error; `animation-name: none` gives no
/// name. A declaration without any item has ended too early.
pub fn animation_property_from_tokens<E>(
    name: &str,
    items: Vec<Vec<AnimationShorthandToken<E>>>,
    is_none: bool,
) -> (r: Result<AnimationProperty<AnimationPropertyId, E>, CssError>)
    ensures
        animation_property_name(name@) is None ==> r == Err::<AnimationProperty<AnimationPropertyId, E>, CssError>(
            unlocated(CssErrorKind::InvalidAnimationProperty)),
        animation_property_name(name@) == Some(None::<AnimationPropertyId>) ==> {
            if items@.len() == 0 {
                r == Err::<AnimationProperty<AnimationPropertyId, E>, CssError>(unlocated(CssErrorKind::EndOfInput))
            } else if shorthand_items_ok(items@) {
                &&& r matches Ok(AnimationProperty::Shorthand(AnimationValues::Specific(v)))
                &&& v@.len() == items@.len()
                &&& forall|i: int| 0 <= i < items@.len() ==>
                    (#[trigger] v@[i])@ == animation_shorthand_from(items@[i]@, 0, Seq::empty()).0
            } else {
                r == Err::<AnimationProperty<AnimationPropertyId, E>, CssError>(unlocated(CssErrorKind::UnexpectedToken))
            }
        },
        animation_property_name(name@) == Some(Some(AnimationPropertyId::Name)) && is_none ==> {
            &&& r matches Ok(AnimationProperty::SingleProperty { property_id, values: AnimationValues::Specific(v) })
            &&& property_id == AnimationPropertyId::Name
            &&& v@.len() == 0
        },
        forall|id: AnimationPropertyId| animation_property_name(name@) == Some(Some(id))
            && !(id == AnimationPropertyId::Name && is_none) ==> {
            if items@.len() == 0 {
                r == Err::<AnimationProperty<AnimationPropertyId, E>, CssError>(unlocated(CssErrorKind::EndOfInput))
            } else if single_items_ok(id, items@) {
                &&& r matches Ok(AnimationProperty::SingleProperty { property_id, values: AnimationValues::Specific(v) })
                &&& property_id == id
                &&& v@.len() == items@.len()
                &&& forall|i: int| 0 <= i < items@.len() ==>
                    Some(#[trigger] v@[i]) == single_value(id, items@[i]@[0])
            } else {
                r == Err::<AnimationProperty<AnimationPropertyId, E>, CssError>(unlocated(value_error_kind(id)))
            }
        },
{
    let kind = match animation_property_from_name(name) {
        Ok(k) => k,
        Err(e) => return Err(CssError::new_unlocated(e)),
    };
    match kind {
        None => {
            if items.len() == 0 {
                return Err(CssError::new_unlocated(CssErrorKind::EndOfInput));
            }
            let ghost all = items@;
            let mut rest = items;
            let mut out: Vec<Vec<(AnimationPropertyId, AnimationSpecificValue<E>)>> = Vec::new();
            let ghost mut k: int = 0;
            while rest.len() > 0
                invariant
                    all == items@,
                    all.len() > 0,
                    animation_property_name(name@) == Some(None::<AnimationPropertyId>),
                    0 <= k <= all.len(),
                    rest@ == all.skip(k),
                    out@.len() == k,
                    forall|i: int| 0 <= i < k ==> (#[trigger] all[i])@.len() > 0
                        && animation_shorthand_from(all[i]@, 0, Seq::empty()).1 == all[i]@.len(),
                    forall|i: int| 0 <= i < k ==> (#[trigger] out@[i])@ == animation_shorthand_from(all[i]@, 0, Seq::empty()).0,
                decreases rest.len(),
            {
                assert(rest@[0] == all[k]);
                let item = rest.remove(0);
                let n = item.len();
                let (props, read) = parse_animation_shorthand(item);
                if n == 0 || read != n {
                    assert(!shorthand_items_ok(all));
                    return Err(CssError::new_unlocated(CssErrorKind::UnexpectedToken));
                }
                out.push(props);
                proof {
                    k = k + 1;
                }
                assert(rest@ =~= all.skip(k));
            }
            Ok(AnimationProperty::Shorthand(AnimationValues::Specific(out)))
        },
        Some(id) => {
            if is_none && id == AnimationPropertyId::Name {
                return Ok(AnimationProperty::SingleProperty { property_id: id, values: AnimationValues::Specific(Vec::new()) });
            }
            if items.len() == 0 {
                return Err(CssError::new_unlocated(CssErrorKind::EndOfInput));
            }
            let ghost all = items@;
            let mut rest = items;
            let mut out: Vec<AnimationSpecificValue<E>> = Vec::new();
            let ghost mut k: int = 0;
            while rest.len() > 0
                invariant
                    all == items@,
                    all.len() > 0,
                    animation_property_name(name@) == Some(Some(id)),
                    !(id == AnimationPropertyId::Name && is_none),
                    0 <= k <= all.len(),
                    rest@ == all.skip(k),
                    out@.len() == k,
                    forall|i: int| 0 <= i < k ==> (#[trigger] all[i])@.len() == 1 && single_value(id, all[i]@[0]) is Some,
                    forall|i: int| 0 <= i < k ==> Some(#[trigger] out@[i]) == single_value(id, all[i]@[0]),
                decreases rest.len(),
            {
                assert(rest@[0] == all[k]);
                let mut item = rest.remove(0);
                if item.len() != 1 {
                    assert(!single_items_ok(id, all));
                    return Err(value_error(id));
                }
                let token = item.remove(0);
                match single_value_of(id, token) {
                    Some(v) => out.push(v),
                    None => {
                        assert(!single_items_ok(id, all));
                        return Err(value_error(id));
                    },
                }
                proof {
                    k = k + 1;
                }
                assert(rest@ =~= all.skip(k));
            }
            Ok(AnimationProperty::SingleProperty { property_id: id, values: AnimationValues::Specific(out) })
        },
    }
}

/// The value a token gives to one `transition-*` property, if it reads as one.
pub open spec fn transition_single_value<E>(id: TransitionPropertyId, t: TransitionShorthandToken<E>) -> Option<AnimationSpecificValue<E>> {
    match id {
        TransitionPropertyId::PropertyName => match t.property_name {
            Some(n) => Some(AnimationSpecificValue::Name(n)),
            None => None,
        },
        TransitionPropertyId::Duration | TransitionPropertyId::Delay => match t.duration {
            Some(d) => Some(AnimationSpecificValue::Duration(d)),
            None => None,
        },
        TransitionPropertyId::TimingFunction => match t.timing_function {
            Some(e) => Some(AnimationSpecificValue::TimingFunction(e)),
            None => None,
        },
    }
}

/// The error of a value that does not read as property `id`.
pub open spec fn transition_value_error_kind(id: TransitionPropertyId) -> CssErrorKind {
    match id {
        TransitionPropertyId::PropertyName => CssErrorKind::InvalidTransitionPropertyName,
        TransitionPropertyId::Duration | TransitionPropertyId::Delay => CssErrorKind::InvalidDuration,
        TransitionPropertyId::TimingFunction => CssErrorKind::InvalidEasingFunctionKeyword,
    }
}

/// Whether every item is one token that reads as property `id`.
pub open spec fn transition_single_items_ok<E>(id: TransitionPropertyId, items: Seq<Vec<TransitionShorthandToken<E>>>) -> bool {
    forall|i: int| 0 <= i < items.len() ==> (#[trigger] items[i])@.len() == 1 && transition_single_value(id, items[i]@[0]) is Some
}

/// Whether every item of the shorthand is read to its end, and none is empty.
pub open spec fn transition_shorthand_items_ok<E>(items: Seq<Vec<TransitionShorthandToken<E>>>) -> bool {
    forall|i: int| 0 <= i < items.len() ==> (#[trigger] items[i])@.len() > 0
        && transition_shorthand_from(items[i]@, 0, Seq::empty()).1 == items[i]@.len()
}

fn transition_value_error(id: TransitionPropertyId) -> (r: CssError)
    ensures
        r == unlocated(transition_value_error_kind(id)),
{
    let kind = match id {
        TransitionPropertyId::PropertyName => CssErrorKind::InvalidTransitionPropertyName,
        TransitionPropertyId::Duration | TransitionPropertyId::Delay => CssErrorKind::InvalidDuration,
        TransitionPropertyId::TimingFunction => CssErrorKind::InvalidEasingFunctionKeyword,
    };
    CssError::new_unlocated(kind)
}

fn transition_single_value_of<E>(id: TransitionPropertyId, t: TransitionShorthandToken<E>) -> (r: Option<AnimationSpecificValue<E>>)
    ensures
        r == transition_single_value(id, t),
{
    match id {
        TransitionPropertyId::PropertyName => match t.property_name {
            Some(n) => Some(AnimationSpecificValue::Name(n)),
            None => None,
        },
        TransitionPropertyId::Duration | TransitionPropertyId::Delay => match t.duration {
            Some(d) => Some(AnimationSpecificValue::Duration(d)),
            None => None,
        },
        TransitionPropertyId::TimingFunction => match t.timing_function {
            Some(e) => Some(AnimationSpecificValue::TimingFunction(e)),
            None => None,
        },
    }
}

/// A `transition` or `transition-*` declaration from its name and the
/// tokens of its comma-separated items (`is_none`: the value is the single
/// keyword `none`), read as [`animation_property_from_tokens`] reads an
/// animation declaration; `transition-property: none` gives no property.
pub fn transition_property_from_tokens<E>(
    name: &str,
    items: Vec<Vec<TransitionShorthandToken<E>>>,
    is_none: bool,
) -> (r: Result<AnimationProperty<TransitionPropertyId, E>, CssError>)
    ensures
        transition_property_name(name@) is None ==> r == Err::<AnimationProperty<TransitionPropertyId, E>, CssError>(
            unlocated(CssErrorKind::InvalidTransitionProperty)),
        transition_property_name(name@) == Some(None::<TransitionPropertyId>) ==> {
            if items@.len() == 0 {
                r == Err::<AnimationProperty<TransitionPropertyId, E>, CssError>(unlocated(CssErrorKind::EndOfInput))
            } else if transition_shorthand_items_ok(items@) {
                &&& r matches Ok(AnimationProperty::Shorthand(AnimationValues::Specific(v)))
                &&& v@.len() == items@.len()
                &&& forall|i: int| 0 <= i < items@.len() ==>
                    (#[trigger] v@[i])@ == transition_shorthand_from(items@[i]@, 0, Seq::empty()).0
            } else {
                r == Err::<AnimationProperty<TransitionPropertyId, E>, CssError>(unlocated(CssErrorKind::UnexpectedToken))
            }
        },
        transition_property_name(name@) == Some(Some(TransitionPropertyId::PropertyName)) && is_none ==> {
            &&& r matches Ok(AnimationProperty::SingleProperty { property_id, values: AnimationValues::Specific(v) })
            &&& property_id == TransitionPropertyId::PropertyName
            &&& v@.len() == 0
        },
        forall|id: TransitionPropertyId| transition_property_name(name@) == Some(Some(id))
            && !(id == TransitionPropertyId::PropertyName && is_none) ==> {
            if items@.len() == 0 {
                r == Err::<AnimationProperty<TransitionPropertyId, E>, CssError>(unlocated(CssErrorKind::EndOfInput))
            } else if transition_single_items_ok(id, items@) {
                &&& r matches Ok(AnimationProperty::SingleProperty { property_id, values: AnimationValues::Specific(v) })
                &&& property_id == id
                &&& v@.len() == items@.len()
                &&& forall|i: int| 0 <= i < items@.len() ==>
                    Some(#[trigger] v@[i]) == transition_single_value(id, items@[i]@[0])
            } else {
                r == Err::<AnimationProperty<TransitionPropertyId, E>, CssError>(unlocated(transition_value_error_kind(id)))
            }
        },
{
    let kind = match transition_property_from_name(name) {
        Ok(k) => k,
        Err(e) => return Err(CssError::new_unlocated(e)),
    };
    match kind {
        None => {
            if items.len() == 0 {
                return Err(CssError::new_unlocated(CssErrorKind::EndOfInput));
            }
            let ghost all = items@;
            let mut rest = items;
            let mut out: Vec<Vec<(TransitionPropertyId, AnimationSpecificValue<E>)>> = Vec::new();
            let ghost mut k: int = 0;
            while rest.len() > 0
                invariant
                    all == items@,
                    all.len() > 0,
                    transition_property_name(name@) == Some(None::<TransitionPropertyId>),
                    0 <= k <= all.len(),
                    rest@ == all.skip(k),
                    out@.len() == k,
                    forall|i: int| 0 <= i < k ==> (#[trigger] all[i])@.len() > 0
                        && transition_shorthand_from(all[i]@, 0, Seq::empty()).1 == all[i]@.len(),
                    forall|i: int| 0 <= i < k ==> (#[trigger] out@[i])@ == transition_shorthand_from(all[i]@, 0, Seq::empty()).0,
                decreases rest.len(),
            {
                assert(rest@[0] == all[k]);
                let item = rest.remove(0);
                let n = item.len();
                let (props, read) = parse_transition_shorthand(item);
                if n == 0 || read != n {
                    assert(!transition_shorthand_items_ok(all));
                    return Err(CssError::new_unlocated(CssErrorKind::UnexpectedToken));
                }
                out.push(props);
                proof {
                    k = k + 1;
                }
                assert(rest@ =~= all.skip(k));
            }
            Ok(AnimationProperty::Shorthand(AnimationValues::Specific(out)))
        },
        Some(id) => {
            if is_none && id == TransitionPropertyId::PropertyName {
                return Ok(AnimationProperty::SingleProperty { property_id: id, values: AnimationValues::Specific(Vec::new()) });
            }
            if items.len() == 0 {
                return Err(CssError::new_unlocated(CssErrorKind::EndOfInput));
            }
            let ghost all = items@;
            let mut rest = items;
            let mut out: Vec<AnimationSpecificValue<E>> = Vec::new();
            let ghost mut k: int = 0;
            while rest.len() > 0
                invariant
                    all == items@,
                    all.len() > 0,
                    transition_property_name(name@) == Some(Some(id)),
                    !(id == TransitionPropertyId::PropertyName && is_none),
                    0 <= k <= all.len(),
                    rest@ == all.skip(k),
                    out@.len() == k,
                    forall|i: int| 0 <= i < k ==> (#[trigger] all[i])@.len() == 1 && transition_single_value(id, all[i]@[0]) is Some,
                    forall|i: int| 0 <= i < k ==> Some(#[trigger] out@[i]) == transition_single_value(id, all[i]@[0]),
                decreases rest.len(),
            {
                assert(rest@[0] == all[k]);
                let mut item = rest.remove(0);
                if item.len() != 1 {
                    assert(!transition_single_items_ok(id, all));
                    return Err(transition_value_error(id));
                }
                let token = item.remove(0);
                match transition_single_value_of(id, token) {
                    Some(v) => out.push(v),
                    None => {
                        assert(!transition_single_items_ok(id, all));
                        return Err(transition_value_error(id));
                    },
                }
                proof {
                    k = k + 1;
                }
                assert(rest@ =~= all.skip(k));
            }
            Ok(AnimationProperty::SingleProperty { property_id: id, values: AnimationValues::Specific(out) })
        },
    }
}

/// What becomes of a declaration once its values were tried: they are used
/// when they read; otherwise, when the value held `var()`, it is kept as
/// tokens to read once the variables are known; otherwise it fails.
#[derive(Debug, Clone, Copy, PartialEq, Eq, Structural)]
pub enum ValuesFallback {
    /// Use the values read.
    UseValues,
    /// Keep the value as tokens with variables.
    KeepVarTokens,
    /// Report the error met reading the values.
    Fail,
}

/// Decides what becomes of a declaration: `values_read` is whether its
/// values read, `seen_var` whether its value held `var()`.
pub fn values_fallback(values_read: bool, seen_var: bool) -> (r: ValuesFallback)
    ensures
        r == if values_read {
            ValuesFallback::UseValues
        } else if seen_var {
            ValuesFallback::KeepVarTokens
        } else {
            ValuesFallback::Fail
        },
{
    if values_read {
        ValuesFallback::UseValues
    } else if seen_var {
        ValuesFallback::KeepVarTokens
    } else {
        ValuesFallback::Fail
    }
}

/// A part of a declaration's value, as read: a value, a comma, a closing
/// `!important`, or anything else.
#[derive(Debug)]
pub enum ValuePart<T> {
    /// A value.
    Value(T),
    /// `,`
    Comma,
    /// `!important`
    Important,
    /// Anything else.
    Other,
}

/// Whether the part at `k` does not fit: it is no value, comma or
/// `!important`, or something follows `!important`.
pub open spec fn bad_part<T>(parts: Seq<(ValuePart<T>, SourceLocation)>, k: int) -> bool {
    parts[k].0 is Other || (k > 0 && parts[k - 1].0 is Important)
}

/// The comma-separated items of the first `n` parts.
pub open spec fn items_upto<T>(parts: Seq<(ValuePart<T>, SourceLocation)>, n: int) -> Seq<Seq<T>>
    decreases n,
{
    if n <= 0 {
        seq![Seq::<T>::empty()]
    } else {
        let prev = items_upto(parts, n - 1);
        match parts[n - 1].0 {
            ValuePart::Comma => prev.push(Seq::empty()),
            ValuePart::Value(t) => prev.update(prev.len() - 1, prev.last().push(t)),
            _ => prev,
        }
    }
}

/// Whether a value or a comma is among the parts.
pub open spec fn has_item_part<T>(parts: Seq<(ValuePart<T>, SourceLocation)>) -> bool {
    exists|k: int| 0 <= k < parts.len() && (#[trigger] parts[k].0 is Value || parts[k].0 is Comma)
}

/// The items of a value made of `parts`, when every part fits: none when
/// there is no value or comma, else the values between commas.
pub open spec fn value_items<T>(parts: Seq<(ValuePart<T>, SourceLocation)>) -> Seq<Seq<T>> {
    if has_item_part(parts) {
        items_upto(parts, parts.len() as int)
    } else {
        Seq::empty()
    }
}

proof fn lemma_items_upto_nonempty<T>(parts: Seq<(ValuePart<T>, SourceLocation)>, n: int)
    requires
        0 <= n <= parts.len(),
    ensures
        items_upto(parts, n).len() >= 1,
    decreases n,
{
    if n > 0 {
        lemma_items_upto_nonempty(parts, n - 1);
    }
}

/// Splits a declaration's value into its comma-separated items. The first
/// part that does not fit is an unexpected token at its place.
pub fn split_items<T>(parts: Vec<(ValuePart<T>, SourceLocation)>) -> (r: Result<Vec<Vec<T>>, CssError>)
    ensures
        (r is Err) <==> exists|k: int| 0 <= k < parts@.len() && bad_part(parts@, k),
        r matches Err(e) ==> exists|k: int| 0 <= k < parts@.len() && bad_part(parts@, k)
            && (forall|j: int| 0 <= j < k ==> !bad_part(parts@, j))
            && e == (CssError { kind: CssErrorKind::UnexpectedToken, location: Some(parts@[k].1) }),
        r matches Ok(items) ==> items@.len() == value_items(parts@).len()
            && forall|i: int| 0 <= i < items@.len() ==> (#[trigger] items@[i])@ == value_items(parts@)[i],
{
    let ghost ps = parts@;
    let n = parts.len();
    let mut rest = parts;
    let mut items: Vec<Vec<T>> = Vec::new();
    let mut current: Vec<T> = Vec::new();
    let mut seen = false;
    let mut after_important = false;
    let mut i: usize = 0;
    while i < n
        invariant
            ps == parts@,
            n == ps.len(),
            i <= n,
            rest@ == ps.skip(i as int),
            forall|j: int| 0 <= j < i ==> !bad_part(ps, j),
            after_important == (i > 0 && ps[i - 1].0 is Important),
            seen == exists|k: int| 0 <= k < i && (#[trigger] ps[k].0 is Value || ps[k].0 is Comma),
            items@.len() + 1 == items_upto(ps, i as int).len(),
            forall|k: int| 0 <= k < items@.len() ==> (#[trigger] items@[k])@ == items_upto(ps, i as int)[k],
            current@ == items_upto(ps, i as int).last(),
        decreases n - i,
    {
        proof {
            lemma_items_upto_nonempty(ps, i as int);
        }
        assert(rest@[0] == ps[i as int]);
        let (part, location) = rest.remove(0);
        if after_important {
            assert(bad_part(ps, i as int));
            return Err(CssError::new_located(CssErrorKind::UnexpectedToken, location));
        }
        let ghost prev = items_upto(ps, i as int);
        match part {
            ValuePart::Value(t) => {
                current.push(t);
                seen = true;
                after_important = false;
            },
            ValuePart::Comma => {
                let mut done: Vec<T> = Vec::new();
                std::mem::swap(&mut done, &mut current);
                items.push(done);
                seen = true;
                after_important = false;
            },
            ValuePart::Important => {
                after_important = true;
            },
            ValuePart::Other => {
                assert(bad_part(ps, i as int));
                return Err(CssError::new_located(CssErrorKind::UnexpectedToken, location));
            },
        }
        i = i + 1;
        proof {
            assert(rest@ =~= ps.skip(i as int));
            let cur = items_upto(ps, i as int);
            assert forall|k: int| 0 <= k < items@.len() implies (#[trigger] items@[k])@ == cur[k] by {
                assert(prev.len() >= 1);
            }
            assert(current@ =~= cur.last());
            assert(seen == exists|k: int| 0 <= k < i && (#[trigger] ps[k].0 is Value || ps[k].0 is Comma)) by {
                if ps[i - 1].0 is Value || ps[i - 1].0 is Comma {
                    assert(ps[i - 1].0 is Value || ps[i - 1].0 is Comma);
                }
            }
        }
    }
    if seen {
        items.push(current);
        proof {
            lemma_items_upto_nonempty(ps, n as int);
            assert forall|k: int| 0 <= k < items@.len() implies (#[trigger] items@[k])@ == value_items(ps)[k] by {}
        }
        Ok(items)
    } else {
        Ok(Vec::new())
    }
}

/// A single `animation-*` property reads a token as the `animation`
/// shorthand reads it for that sub-property.
pub proof fn lemma_single_value_as_in_shorthand<E>(id: AnimationPropertyId, t: AnimationShorthandToken<E>)
    ensures
        single_value(id, t) == animation_offered_value(id, t),
{
}

} // verus!

