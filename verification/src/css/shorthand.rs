//! The `animation` and `transition` shorthands: which property each value of
//! one comma-separated item sets.
//!
//! The values may come in any order. Each token is offered to the
//! sub-properties in a fixed order, and the first one not yet set that accepts
//! it takes it; the first duration is the duration and the second the delay.
//! Names come last since any keyword could be one. Reading stops at the first
//! token that nothing takes. What each sub-property makes of a token is given
//! in a [`AnimationShorthandToken`] or [`TransitionShorthandToken`].

use vstd::prelude::*;
use crate::animations::animation::{AnimationDirection, AnimationFillMode, AnimationPlayState, IterationCount};
use crate::animations::properties::{AnimationPropertyId, AnimationSpecificValue, TransitionPropertyId};

verus! {

/// What each `animation-*` sub-property reads from one token, if anything.
#[derive(Debug)]
pub struct AnimationShorthandToken<E> {
    /// As a duration or delay.
    pub duration: Option<u128>,
    /// As a direction.
    pub direction: Option<AnimationDirection>,
    /// As a fill mode.
    pub fill_mode: Option<AnimationFillMode>,
    /// As an iteration count.
    pub iteration_count: Option<IterationCount>,
    /// As a play state.
    pub play_state: Option<AnimationPlayState>,
    /// As a timing function.
    pub timing_function: Option<E>,
    /// As an animation name.
    pub name: Option<String>,
}

/// What each `transition-*` sub-property reads from one token, if anything.
#[derive(Debug)]
pub struct TransitionShorthandToken<E> {
    /// As a duration or delay.
    pub duration: Option<u128>,
    /// As a timing function.
    pub timing_function: Option<E>,
    /// As a property name.
    pub property_name: Option<String>,
}

/// Whether `p` is already set in `acc`.
pub open spec fn is_set<P, V>(acc: Seq<(P, V)>, p: P) -> bool {
    exists|i: int| 0 <= i < acc.len() && #[trigger] acc[i].0 == p
}

/// The properties set by the animation shorthand item made of `toks`, reading
/// from position `pos` with `acc` already set, and where reading stopped.
/// After a play state, the following token is offered only to the timing
/// function and the name before reading goes on.
pub open spec fn animation_shorthand_from<E>(
    toks: Seq<AnimationShorthandToken<E>>,
    pos: int,
    acc: Seq<(AnimationPropertyId, AnimationSpecificValue<E>)>,
) -> (Seq<(AnimationPropertyId, AnimationSpecificValue<E>)>, int)
    decreases toks.len() - pos,
{
    if pos < 0 || pos >= toks.len() {
        (acc, pos)
    } else {
        let t = toks[pos];
        if !is_set(acc, AnimationPropertyId::Duration) && t.duration is Some {
            animation_shorthand_from(toks, pos + 1,
                acc.push((AnimationPropertyId::Duration, AnimationSpecificValue::Duration(t.duration->0))))
        } else if is_set(acc, AnimationPropertyId::Duration) && !is_set(acc, AnimationPropertyId::Delay)
            && t.duration is Some {
            animation_shorthand_from(toks, pos + 1,
                acc.push((AnimationPropertyId::Delay, AnimationSpecificValue::Duration(t.duration->0))))
        } else if !is_set(acc, AnimationPropertyId::Direction) && t.direction is Some {
            animation_shorthand_from(toks, pos + 1,
                acc.push((AnimationPropertyId::Direction, AnimationSpecificValue::Direction(t.direction->0))))
        } else if !is_set(acc, AnimationPropertyId::FillMode) && t.fill_mode is Some {
            animation_shorthand_from(toks, pos + 1,
                acc.push((AnimationPropertyId::FillMode, AnimationSpecificValue::FillMode(t.fill_mode->0))))
        } else if !is_set(acc, AnimationPropertyId::IterationCount) && t.iteration_count is Some {
            animation_shorthand_from(toks, pos + 1,
                acc.push((AnimationPropertyId::IterationCount,
                    AnimationSpecificValue::IterationCount(t.iteration_count->0))))
        } else if !is_set(acc, AnimationPropertyId::PlayState) && t.play_state is Some {
            let acc2 = acc.push((AnimationPropertyId::PlayState, AnimationSpecificValue::PlayState(t.play_state->0)));
            if pos + 1 < toks.len() {
                let t2 = toks[pos + 1];
                if !is_set(acc2, AnimationPropertyId::TimingFunction) && t2.timing_function is Some {
                    animation_shorthand_from(toks, pos + 2,
                        acc2.push((AnimationPropertyId::TimingFunction,
                            AnimationSpecificValue::TimingFunction(t2.timing_function->0))))
                } else if !is_set(acc2, AnimationPropertyId::Name) && t2.name is Some {
                    animation_shorthand_from(toks, pos + 2,
                        acc2.push((AnimationPropertyId::Name, AnimationSpecificValue::Name(t2.name->0))))
                } else {
                    (acc2, pos + 1)
                }
            } else {
                (acc2, pos + 1)
            }
        } else if !is_set(acc, AnimationPropertyId::TimingFunction) && t.timing_function is Some {
            animation_shorthand_from(toks, pos + 1,
                acc.push((AnimationPropertyId::TimingFunction,
                    AnimationSpecificValue::TimingFunction(t.timing_function->0))))
        } else if !is_set(acc, AnimationPropertyId::Name) && t.name is Some {
            animation_shorthand_from(toks, pos + 1,
                acc.push((AnimationPropertyId::Name, AnimationSpecificValue::Name(t.name->0))))
        } else {
            (acc, pos)
        }
    }
}

/// The properties set by the transition shorthand item made of `toks`,
/// reading from position `pos` with `acc` already set, and where reading stopped.
pub open spec fn transition_shorthand_from<E>(
    toks: Seq<TransitionShorthandToken<E>>,
    pos: int,
    acc: Seq<(TransitionPropertyId, AnimationSpecificValue<E>)>,
) -> (Seq<(TransitionPropertyId, AnimationSpecificValue<E>)>, int)
    decreases toks.len() - pos,
{
    if pos < 0 || pos >= toks.len() {
        (acc, pos)
    } else {
        let t = toks[pos];
        if !is_set(acc, TransitionPropertyId::Duration) && t.duration is Some {
            transition_shorthand_from(toks, pos + 1,
                acc.push((TransitionPropertyId::Duration, AnimationSpecificValue::Duration(t.duration->0))))
        } else if is_set(acc, TransitionPropertyId::Duration) && !is_set(acc, TransitionPropertyId::Delay)
            && t.duration is Some {
            transition_shorthand_from(toks, pos + 1,
                acc.push((TransitionPropertyId::Delay, AnimationSpecificValue::Duration(t.duration->0))))
        } else if !is_set(acc, TransitionPropertyId::TimingFunction) && t.timing_function is Some {
            transition_shorthand_from(toks, pos + 1,
                acc.push((TransitionPropertyId::TimingFunction,
                    AnimationSpecificValue::TimingFunction(t.timing_function->0))))
        } else if !is_set(acc, TransitionPropertyId::PropertyName) && t.property_name is Some {
            transition_shorthand_from(toks, pos + 1,
                acc.push((TransitionPropertyId::PropertyName, AnimationSpecificValue::Name(t.property_name->0))))
        } else {
            (acc, pos)
        }
    }
}

/// Whether `p` is set in `acc`.
fn contains_animation_property<V>(acc: &Vec<(AnimationPropertyId, AnimationSpecificValue<V>)>, p: AnimationPropertyId) -> (r: bool)
    ensures
        r == is_set(acc@, p),
{
    let mut i: usize = 0;
    while i < acc.len()
        invariant
            i <= acc@.len(),
            forall|k: int| 0 <= k < i ==> acc@[k].0 != p,
        decreases acc.len() - i,
    {
        if acc[i].0 == p {
            return true;
        }
        i = i + 1;
    }
    false
}

/// Whether `p` is set in `acc`.
fn contains_transition_property<V>(acc: &Vec<(TransitionPropertyId, AnimationSpecificValue<V>)>, p: TransitionPropertyId) -> (r: bool)
    ensures
        r == is_set(acc@, p),
{
    let mut i: usize = 0;
    while i < acc.len()
        invariant
            i <= acc@.len(),
            forall|k: int| 0 <= k < i ==> acc@[k].0 != p,
        decreases acc.len() - i,
    {
        if acc[i].0 == p {
            return true;
        }
        i = i + 1;
    }
    false
}

/// Reads one item of the `animation` shorthand: the properties it sets, in
/// the order read, and the number of tokens read.
pub fn parse_animation_shorthand<E>(tokens: Vec<AnimationShorthandToken<E>>) -> (r: (Vec<(AnimationPropertyId, AnimationSpecificValue<E>)>, usize))
    ensures
        (r.0@, r.1 as int) == animation_shorthand_from(tokens@, 0, Seq::empty()),
{
    let ghost toks = tokens@;
    let _ = tokens.len();
    let mut rest = tokens;
    let mut result: Vec<(AnimationPropertyId, AnimationSpecificValue<E>)> = Vec::new();
    let mut pos: usize = 0;
    loop
        invariant_except_break
            rest@ == toks.skip(pos as int),
            animation_shorthand_from(toks, pos as int, result@) == animation_shorthand_from(toks, 0, Seq::empty()),
        invariant
            pos <= toks.len(),
            toks.len() <= usize::MAX,
        ensures
            (result@, pos as int) == animation_shorthand_from(toks, 0, Seq::empty()),
        decreases toks.len() - pos,
    {
        if rest.len() == 0 {
            break;
        }
        assert(rest@[0] == toks[pos as int]);
        let t = rest.remove(0);
        assert(rest@ =~= toks.skip(pos as int + 1));
        let has_duration = contains_animation_property(&result, AnimationPropertyId::Duration);
        if !has_duration && t.duration.is_some() {
            result.push((AnimationPropertyId::Duration, AnimationSpecificValue::Duration(t.duration.unwrap())));
            pos = pos + 1;
            continue;
        }
        if has_duration && !contains_animation_property(&result, AnimationPropertyId::Delay) && t.duration.is_some() {
            result.push((AnimationPropertyId::Delay, AnimationSpecificValue::Duration(t.duration.unwrap())));
            pos = pos + 1;
            continue;
        }
        if !contains_animation_property(&result, AnimationPropertyId::Direction) && t.direction.is_some() {
            result.push((AnimationPropertyId::Direction, AnimationSpecificValue::Direction(t.direction.unwrap())));
            pos = pos + 1;
            continue;
        }
        if !contains_animation_property(&result, AnimationPropertyId::FillMode) && t.fill_mode.is_some() {
            result.push((AnimationPropertyId::FillMode, AnimationSpecificValue::FillMode(t.fill_mode.unwrap())));
            pos = pos + 1;
            continue;
        }
        if !contains_animation_property(&result, AnimationPropertyId::IterationCount) && t.iteration_count.is_some() {
            result.push((AnimationPropertyId::IterationCount,
                AnimationSpecificValue::IterationCount(t.iteration_count.unwrap())));
            pos = pos + 1;
            continue;
        }
        if !contains_animation_property(&result, AnimationPropertyId::PlayState) && t.play_state.is_some() {
            result.push((AnimationPropertyId::PlayState, AnimationSpecificValue::PlayState(t.play_state.unwrap())));
            pos = pos + 1;
            if rest.len() == 0 {
                break;
            }
            assert(rest@[0] == toks[pos as int]);
            let t2 = rest.remove(0);
            assert(rest@ =~= toks.skip(pos as int + 1));
            if !contains_animation_property(&result, AnimationPropertyId::TimingFunction) && t2.timing_function.is_some() {
                result.push((AnimationPropertyId::TimingFunction,
                    AnimationSpecificValue::TimingFunction(t2.timing_function.unwrap())));
                pos = pos + 1;
                continue;
            }
            if !contains_animation_property(&result, AnimationPropertyId::Name) && t2.name.is_some() {
                result.push((AnimationPropertyId::Name, AnimationSpecificValue::Name(t2.name.unwrap())));
                pos = pos + 1;
                continue;
            }
            break;
        }
        if !contains_animation_property(&result, AnimationPropertyId::TimingFunction) && t.timing_function.is_some() {
            result.push((AnimationPropertyId::TimingFunction,
                AnimationSpecificValue::TimingFunction(t.timing_function.unwrap())));
            pos = pos + 1;
            continue;
        }
        if !contains_animation_property(&result, AnimationPropertyId::Name) && t.name.is_some() {
            result.push((AnimationPropertyId::Name, AnimationSpecificValue::Name(t.name.unwrap())));
            pos = pos + 1;
            continue;
        }
        break;
    }
    (result, pos)
}

/// Reads one item of the `transition` shorthand: the properties it sets, in
/// the order read, and the number of tokens read.
pub fn parse_transition_shorthand<E>(tokens: Vec<TransitionShorthandToken<E>>) -> (r: (Vec<(TransitionPropertyId, AnimationSpecificValue<E>)>, usize))
    ensures
        (r.0@, r.1 as int) == transition_shorthand_from(tokens@, 0, Seq::empty()),
{
    let ghost toks = tokens@;
    let _ = tokens.len();
    let mut rest = tokens;
    let mut result: Vec<(TransitionPropertyId, AnimationSpecificValue<E>)> = Vec::new();
    let mut pos: usize = 0;
    loop
        invariant_except_break
            rest@ == toks.skip(pos as int),
            transition_shorthand_from(toks, pos as int, result@) == transition_shorthand_from(toks, 0, Seq::empty()),
        invariant
            pos <= toks.len(),
            toks.len() <= usize::MAX,
        ensures
            (result@, pos as int) == transition_shorthand_from(toks, 0, Seq::empty()),
        decreases toks.len() - pos,
    {
        if rest.len() == 0 {
            break;
        }
        assert(rest@[0] == toks[pos as int]);
        let t = rest.remove(0);
        assert(rest@ =~= toks.skip(pos as int + 1));
        let has_duration = contains_transition_property(&result, TransitionPropertyId::Duration);
        if !has_duration && t.duration.is_some() {
            result.push((TransitionPropertyId::Duration, AnimationSpecificValue::Duration(t.duration.unwrap())));
            pos = pos + 1;
            continue;
        }
        if has_duration && !contains_transition_property(&result, TransitionPropertyId::Delay) && t.duration.is_some() {
            result.push((TransitionPropertyId::Delay, AnimationSpecificValue::Duration(t.duration.unwrap())));
            pos = pos + 1;
            continue;
        }
        if !contains_transition_property(&result, TransitionPropertyId::TimingFunction) && t.timing_function.is_some() {
            result.push((TransitionPropertyId::TimingFunction,
                AnimationSpecificValue::TimingFunction(t.timing_function.unwrap())));
            pos = pos + 1;
            continue;
        }
        if !contains_transition_property(&result, TransitionPropertyId::PropertyName) && t.property_name.is_some() {
            result.push((TransitionPropertyId::PropertyName, AnimationSpecificValue::Name(t.property_name.unwrap())));
            pos = pos + 1;
            continue;
        }
        break;
    }
    (result, pos)
}

/// Where a sub-property of the `animation` shorthand comes in the order a
/// token is offered to them: duration, delay, direction, fill mode,
/// iteration count, play state, timing function, name.
pub open spec fn animation_offer_rank(id: AnimationPropertyId) -> int {
    match id {
        AnimationPropertyId::Duration => 0,
        AnimationPropertyId::Delay => 1,
        AnimationPropertyId::Direction => 2,
        AnimationPropertyId::FillMode => 3,
        AnimationPropertyId::IterationCount => 4,
        AnimationPropertyId::PlayState => 5,
        AnimationPropertyId::TimingFunction => 6,
        AnimationPropertyId::Name => 7,
    }
}

/// The value a token gives to a sub-property of the `animation` shorthand,
/// if it reads as one.
pub open spec fn animation_offered_value<E>(id: AnimationPropertyId, t: AnimationShorthandToken<E>) -> Option<AnimationSpecificValue<E>> {
    match id {
        AnimationPropertyId::Duration | AnimationPropertyId::Delay => match t.duration {
            Some(d) => Some(AnimationSpecificValue::Duration(d)),
            None => None,
        },
        AnimationPropertyId::Direction => match t.direction {
            Some(d) => Some(AnimationSpecificValue::Direction(d)),
            None => None,
        },
        AnimationPropertyId::FillMode => match t.fill_mode {
            Some(f) => Some(AnimationSpecificValue::FillMode(f)),
            None => None,
        },
        AnimationPropertyId::IterationCount => match t.iteration_count {
            Some(c) => Some(AnimationSpecificValue::IterationCount(c)),
            None => None,
        },
        AnimationPropertyId::PlayState => match t.play_state {
            Some(p) => Some(AnimationSpecificValue::PlayState(p)),
            None => None,
        },
        AnimationPropertyId::TimingFunction => match t.timing_function {
            Some(e) => Some(AnimationSpecificValue::TimingFunction(e)),
            None => None,
        },
        AnimationPropertyId::Name => match t.name {
            Some(n) => Some(AnimationSpecificValue::Name(n)),
            None => None,
        },
    }
}

/// Whether sub-property `id` takes the token `t` with `acc` already set: it
/// is not set yet and the token reads as it; the delay only once the
/// duration is set.
pub open spec fn animation_takes<E>(
    acc: Seq<(AnimationPropertyId, AnimationSpecificValue<E>)>,
    t: AnimationShorthandToken<E>,
    id: AnimationPropertyId,
) -> bool {
    &&& !is_set(acc, id)
    &&& animation_offered_value(id, t) is Some
    &&& (id == AnimationPropertyId::Delay ==> is_set(acc, AnimationPropertyId::Duration))
}

/// Reading an item never drops what was already set: it only adds after it.
pub proof fn lemma_animation_shorthand_keeps<E>(
    toks: Seq<AnimationShorthandToken<E>>,
    pos: int,
    acc: Seq<(AnimationPropertyId, AnimationSpecificValue<E>)>,
)
    ensures
        animation_shorthand_from(toks, pos, acc).0.len() >= acc.len(),
        forall|i: int| 0 <= i < acc.len() ==> #[trigger] animation_shorthand_from(toks, pos, acc).0[i] == acc[i],
        animation_shorthand_from(toks, pos, acc).1 >= pos,
    decreases toks.len() - pos,
{
    if 0 <= pos < toks.len() {
        let t = toks[pos];
        let d = AnimationPropertyId::Duration;
        if !is_set(acc, d) && t.duration is Some {
            lemma_animation_shorthand_keeps(toks, pos + 1, acc.push((d, AnimationSpecificValue::Duration(t.duration->0))));
        } else if is_set(acc, d) && !is_set(acc, AnimationPropertyId::Delay) && t.duration is Some {
            lemma_animation_shorthand_keeps(toks, pos + 1,
                acc.push((AnimationPropertyId::Delay, AnimationSpecificValue::Duration(t.duration->0))));
        } else if !is_set(acc, AnimationPropertyId::Direction) && t.direction is Some {
            lemma_animation_shorthand_keeps(toks, pos + 1,
                acc.push((AnimationPropertyId::Direction, AnimationSpecificValue::Direction(t.direction->0))));
        } else if !is_set(acc, AnimationPropertyId::FillMode) && t.fill_mode is Some {
            lemma_animation_shorthand_keeps(toks, pos + 1,
                acc.push((AnimationPropertyId::FillMode, AnimationSpecificValue::FillMode(t.fill_mode->0))));
        } else if !is_set(acc, AnimationPropertyId::IterationCount) && t.iteration_count is Some {
            lemma_animation_shorthand_keeps(toks, pos + 1,
                acc.push((AnimationPropertyId::IterationCount, AnimationSpecificValue::IterationCount(t.iteration_count->0))));
        } else if !is_set(acc, AnimationPropertyId::PlayState) && t.play_state is Some {
            let acc2 = acc.push((AnimationPropertyId::PlayState, AnimationSpecificValue::PlayState(t.play_state->0)));
            if pos + 1 < toks.len() {
                let t2 = toks[pos + 1];
                if !is_set(acc2, AnimationPropertyId::TimingFunction) && t2.timing_function is Some {
                    lemma_animation_shorthand_keeps(toks, pos + 2, acc2.push((AnimationPropertyId::TimingFunction,
                        AnimationSpecificValue::TimingFunction(t2.timing_function->0))));
                } else if !is_set(acc2, AnimationPropertyId::Name) && t2.name is Some {
                    lemma_animation_shorthand_keeps(toks, pos + 2,
                        acc2.push((AnimationPropertyId::Name, AnimationSpecificValue::Name(t2.name->0))));
                }
            }
        } else if !is_set(acc, AnimationPropertyId::TimingFunction) && t.timing_function is Some {
            lemma_animation_shorthand_keeps(toks, pos + 1, acc.push((AnimationPropertyId::TimingFunction,
                AnimationSpecificValue::TimingFunction(t.timing_function->0))));
        } else if !is_set(acc, AnimationPropertyId::Name) && t.name is Some {
            lemma_animation_shorthand_keeps(toks, pos + 1,
                acc.push((AnimationPropertyId::Name, AnimationSpecificValue::Name(t.name->0))));
        }
    }
}

/// A token goes to the first sub-property, in the order duration, delay,
/// direction, fill mode, iteration count, play state, timing function,
/// name, that is not set yet and reads it: that sub-property is set to the
/// token's value, and reading goes past the token.
pub proof fn lemma_animation_shorthand_offers_in_order<E>(
    toks: Seq<AnimationShorthandToken<E>>,
    pos: int,
    acc: Seq<(AnimationPropertyId, AnimationSpecificValue<E>)>,
    id: AnimationPropertyId,
)
    requires
        0 <= pos < toks.len(),
        animation_takes(acc, toks[pos], id),
        forall|other: AnimationPropertyId| animation_offer_rank(other) < animation_offer_rank(id)
            ==> !#[trigger] animation_takes(acc, toks[pos], other),
    ensures
        ({
            let r = animation_shorthand_from(toks, pos, acc);
            &&& r.1 > pos
            &&& exists|i: int| 0 <= i < r.0.len() && r.0[i] == (id, animation_offered_value(id, toks[pos])->0)
        }),
{
    let t = toks[pos];
    let entry = (id, animation_offered_value(id, t)->0);
    assert(!animation_takes(acc, t, AnimationPropertyId::Duration) || animation_offer_rank(id) <= 0);
    assert(!animation_takes(acc, t, AnimationPropertyId::Delay) || animation_offer_rank(id) <= 1);
    assert(!animation_takes(acc, t, AnimationPropertyId::Direction) || animation_offer_rank(id) <= 2);
    assert(!animation_takes(acc, t, AnimationPropertyId::FillMode) || animation_offer_rank(id) <= 3);
    assert(!animation_takes(acc, t, AnimationPropertyId::IterationCount) || animation_offer_rank(id) <= 4);
    assert(!animation_takes(acc, t, AnimationPropertyId::PlayState) || animation_offer_rank(id) <= 5);
    assert(!animation_takes(acc, t, AnimationPropertyId::TimingFunction) || animation_offer_rank(id) <= 6);
    if id == AnimationPropertyId::PlayState {
        let acc2 = acc.push(entry);
        if pos + 1 < toks.len() {
            let t2 = toks[pos + 1];
            if !is_set(acc2, AnimationPropertyId::TimingFunction) && t2.timing_function is Some {
                lemma_animation_shorthand_keeps(toks, pos + 2, acc2.push((AnimationPropertyId::TimingFunction,
                    AnimationSpecificValue::TimingFunction(t2.timing_function->0))));
                assert(animation_shorthand_from(toks, pos, acc).0[acc.len() as int] == entry);
            } else if !is_set(acc2, AnimationPropertyId::Name) && t2.name is Some {
                lemma_animation_shorthand_keeps(toks, pos + 2,
                    acc2.push((AnimationPropertyId::Name, AnimationSpecificValue::Name(t2.name->0))));
                assert(animation_shorthand_from(toks, pos, acc).0[acc.len() as int] == entry);
            } else {
                assert(animation_shorthand_from(toks, pos, acc).0[acc.len() as int] == entry);
            }
        } else {
            assert(animation_shorthand_from(toks, pos, acc).0[acc.len() as int] == entry);
        }
    } else {
        lemma_animation_shorthand_keeps(toks, pos + 1, acc.push(entry));
        assert(animation_shorthand_from(toks, pos, acc) == animation_shorthand_from(toks, pos + 1, acc.push(entry)));
        assert(animation_shorthand_from(toks, pos, acc).0[acc.len() as int] == entry);
    }
}

/// Where a sub-property of the `transition` shorthand comes in the order a
/// token is offered to them: duration, delay, timing function, property.
pub open spec fn transition_offer_rank(id: TransitionPropertyId) -> int {
    match id {
        TransitionPropertyId::Duration => 0,
        TransitionPropertyId::Delay => 1,
        TransitionPropertyId::TimingFunction => 2,
        TransitionPropertyId::PropertyName => 3,
    }
}

/// The value a token gives to a sub-property of the `transition` shorthand,
/// if it reads as one.
pub open spec fn transition_offered_value<E>(id: TransitionPropertyId, t: TransitionShorthandToken<E>) -> Option<AnimationSpecificValue<E>> {
    match id {
        TransitionPropertyId::Duration | TransitionPropertyId::Delay => match t.duration {
            Some(d) => Some(AnimationSpecificValue::Duration(d)),
            None => None,
        },
        TransitionPropertyId::TimingFunction => match t.timing_function {
            Some(e) => Some(AnimationSpecificValue::TimingFunction(e)),
            None => None,
        },
        TransitionPropertyId::PropertyName => match t.property_name {
            Some(n) => Some(AnimationSpecificValue::Name(n)),
            None => None,
        },
    }
}

/// Whether sub-property `id` of the `transition` shorthand takes the token
/// `t` with `acc` already set.
pub open spec fn transition_takes<E>(
    acc: Seq<(TransitionPropertyId, AnimationSpecificValue<E>)>,
    t: TransitionShorthandToken<E>,
    id: TransitionPropertyId,
) -> bool {
    &&& !is_set(acc, id)
    &&& transition_offered_value(id, t) is Some
    &&& (id == TransitionPropertyId::Delay ==> is_set(acc, TransitionPropertyId::Duration))
}

/// Reading a `transition` item never drops what was already set.
pub proof fn lemma_transition_shorthand_keeps<E>(
    toks: Seq<TransitionShorthandToken<E>>,
    pos: int,
    acc: Seq<(TransitionPropertyId, AnimationSpecificValue<E>)>,
)
    ensures
        transition_shorthand_from(toks, pos, acc).0.len() >= acc.len(),
        forall|i: int| 0 <= i < acc.len() ==> #[trigger] transition_shorthand_from(toks, pos, acc).0[i] == acc[i],
        transition_shorthand_from(toks, pos, acc).1 >= pos,
    decreases toks.len() - pos,
{
    if 0 <= pos < toks.len() {
        let t = toks[pos];
        if !is_set(acc, TransitionPropertyId::Duration) && t.duration is Some {
            lemma_transition_shorthand_keeps(toks, pos + 1,
                acc.push((TransitionPropertyId::Duration, AnimationSpecificValue::Duration(t.duration->0))));
        } else if is_set(acc, TransitionPropertyId::Duration) && !is_set(acc, TransitionPropertyId::Delay) && t.duration is Some {
            lemma_transition_shorthand_keeps(toks, pos + 1,
                acc.push((TransitionPropertyId::Delay, AnimationSpecificValue::Duration(t.duration->0))));
        } else if !is_set(acc, TransitionPropertyId::TimingFunction) && t.timing_function is Some {
            lemma_transition_shorthand_keeps(toks, pos + 1, acc.push((TransitionPropertyId::TimingFunction,
                AnimationSpecificValue::TimingFunction(t.timing_function->0))));
        } else if !is_set(acc, TransitionPropertyId::PropertyName) && t.property_name is Some {
            lemma_transition_shorthand_keeps(toks, pos + 1,
                acc.push((TransitionPropertyId::PropertyName, AnimationSpecificValue::Name(t.property_name->0))));
        }
    }
}

/// A token of a `transition` item goes to the first sub-property, in the
/// order duration, delay, timing function, property, that is not set yet
/// and reads it.
pub proof fn lemma_transition_shorthand_offers_in_order<E>(
    toks: Seq<TransitionShorthandToken<E>>,
    pos: int,
    acc: Seq<(TransitionPropertyId, AnimationSpecificValue<E>)>,
    id: TransitionPropertyId,
)
    requires
        0 <= pos < toks.len(),
        transition_takes(acc, toks[pos], id),
        forall|other: TransitionPropertyId| transition_offer_rank(other) < transition_offer_rank(id)
            ==> !#[trigger] transition_takes(acc, toks[pos], other),
    ensures
        ({
            let r = transition_shorthand_from(toks, pos, acc);
            &&& r.1 > pos
            &&& exists|i: int| 0 <= i < r.0.len() && r.0[i] == (id, transition_offered_value(id, toks[pos])->0)
        }),
{
    let t = toks[pos];
    let entry = (id, transition_offered_value(id, t)->0);
    assert(!transition_takes(acc, t, TransitionPropertyId::Duration) || transition_offer_rank(id) <= 0);
    assert(!transition_takes(acc, t, TransitionPropertyId::Delay) || transition_offer_rank(id) <= 1);
    assert(!transition_takes(acc, t, TransitionPropertyId::TimingFunction) || transition_offer_rank(id) <= 2);
    lemma_transition_shorthand_keeps(toks, pos + 1, acc.push(entry));
    assert(transition_shorthand_from(toks, pos, acc) == transition_shorthand_from(toks, pos + 1, acc.push(entry)));
    assert(transition_shorthand_from(toks, pos, acc).0[acc.len() as int] == entry);
}

} // verus!

