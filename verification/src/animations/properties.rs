//! `animation-*` and `transition-*` properties: the values a style sheet
//! declares, resolved per property (shorthands reset every property they
//! cover) and then turned into one configuration per named animation or
//! transitioned property.
//!
//! Easing functions are carried as an opaque type `E`; a value of it is only
//! ever cloned.

use vstd::prelude::*;
use crate::animations::animation::{
    AnimationDirection, AnimationFillMode, AnimationOptions, AnimationPlayState, IterationCount,
};
use crate::animations::transition::TransitionOptions;

verus! {

/// The `animation-*` properties.
#[derive(Debug, Clone, Copy, PartialEq, Eq, Structural, Hash)]
pub enum AnimationPropertyId {
    /// `animation-name`
    Name,
    /// `animation-duration`
    Duration,
    /// `animation-delay`
    Delay,
    /// `animation-direction`
    Direction,
    /// `animation-fill-mode`
    FillMode,
    /// `animation-iteration-count`
    IterationCount,
    /// `animation-play-state`
    PlayState,
    /// `animation-timing-function`
    TimingFunction,
}

/// The `transition-*` properties.
#[derive(Debug, Clone, Copy, PartialEq, Eq, Structural, Hash)]
pub enum TransitionPropertyId {
    /// `transition-property`
    PropertyName,
    /// `transition-duration`
    Duration,
    /// `transition-delay`
    Delay,
    /// `transition-timing-function`
    TimingFunction,
}

/// A family of properties that a shorthand covers as a whole: each property
/// has a slot in `0..count`.
pub trait PropertyId: Copy + Sized {
    /// Slot of this property.
    spec fn slot_spec(self) -> int;

    /// Number of properties.
    spec fn count_spec() -> int;

    /// Slot of this property.
    fn slot(self) -> (r: usize)
        ensures
            r == self.slot_spec(),
            r < Self::count_spec(),
    ;

    /// Number of properties.
    fn count() -> (r: usize)
        ensures
            r == Self::count_spec(),
    ;

    /// Name of the shorthand property.
    spec fn shorthand_name_spec() -> Seq<char>;

    /// Name of the shorthand property.
    fn shorthand_property_name() -> (r: &'static str)
        ensures
            r@ == Self::shorthand_name_spec(),
    ;
}

/// The CSS name of an `animation-*` property.
pub open spec fn animation_css_name(p: AnimationPropertyId) -> Seq<char> {
    match p {
        AnimationPropertyId::Name => "animation-name"@,
        AnimationPropertyId::Duration => "animation-duration"@,
        AnimationPropertyId::Delay => "animation-delay"@,
        AnimationPropertyId::Direction => "animation-direction"@,
        AnimationPropertyId::FillMode => "animation-fill-mode"@,
        AnimationPropertyId::IterationCount => "animation-iteration-count"@,
        AnimationPropertyId::PlayState => "animation-play-state"@,
        AnimationPropertyId::TimingFunction => "animation-timing-function"@,
    }
}

/// The CSS name of a `transition-*` property.
pub open spec fn transition_css_name(p: TransitionPropertyId) -> Seq<char> {
    match p {
        TransitionPropertyId::PropertyName => "transition-property"@,
        TransitionPropertyId::Duration => "transition-duration"@,
        TransitionPropertyId::Delay => "transition-delay"@,
        TransitionPropertyId::TimingFunction => "transition-timing-function"@,
    }
}

impl AnimationPropertyId {
    /// The CSS name of the property.
    pub fn css_name(&self) -> (r: &'static str)
        ensures
            r@ == animation_css_name(*self),
    {
        match self {
            AnimationPropertyId::Name => "animation-name",
            AnimationPropertyId::Duration => "animation-duration",
            AnimationPropertyId::Delay => "animation-delay",
            AnimationPropertyId::Direction => "animation-direction",
            AnimationPropertyId::FillMode => "animation-fill-mode",
            AnimationPropertyId::IterationCount => "animation-iteration-count",
            AnimationPropertyId::PlayState => "animation-play-state",
            AnimationPropertyId::TimingFunction => "animation-timing-function",
        }
    }
}

impl TransitionPropertyId {
    /// The CSS name of the property.
    pub fn css_name(&self) -> (r: &'static str)
        ensures
            r@ == transition_css_name(*self),
    {
        match self {
            TransitionPropertyId::PropertyName => "transition-property",
            TransitionPropertyId::Duration => "transition-duration",
            TransitionPropertyId::Delay => "transition-delay",
            TransitionPropertyId::TimingFunction => "transition-timing-function",
        }
    }
}

impl PropertyId for AnimationPropertyId {
    open spec fn slot_spec(self) -> int {
        match self {
            AnimationPropertyId::Name => 0,
            AnimationPropertyId::Duration => 1,
            AnimationPropertyId::Delay => 2,
            AnimationPropertyId::Direction => 3,
            AnimationPropertyId::FillMode => 4,
            AnimationPropertyId::IterationCount => 5,
            AnimationPropertyId::PlayState => 6,
            AnimationPropertyId::TimingFunction => 7,
        }
    }

    open spec fn count_spec() -> int {
        8
    }

    fn slot(self) -> (r: usize) {
        match self {
            AnimationPropertyId::Name => 0,
            AnimationPropertyId::Duration => 1,
            AnimationPropertyId::Delay => 2,
            AnimationPropertyId::Direction => 3,
            AnimationPropertyId::FillMode => 4,
            AnimationPropertyId::IterationCount => 5,
            AnimationPropertyId::PlayState => 6,
            AnimationPropertyId::TimingFunction => 7,
        }
    }

    fn count() -> (r: usize) {
        8
    }

    open spec fn shorthand_name_spec() -> Seq<char> {
        "animation"@
    }

    fn shorthand_property_name() -> (r: &'static str) {
        "animation"
    }
}

impl PropertyId for TransitionPropertyId {
    open spec fn slot_spec(self) -> int {
        match self {
            TransitionPropertyId::PropertyName => 0,
            TransitionPropertyId::Duration => 1,
            TransitionPropertyId::Delay => 2,
            TransitionPropertyId::TimingFunction => 3,
        }
    }

    open spec fn count_spec() -> int {
        4
    }

    fn slot(self) -> (r: usize) {
        match self {
            TransitionPropertyId::PropertyName => 0,
            TransitionPropertyId::Duration => 1,
            TransitionPropertyId::Delay => 2,
            TransitionPropertyId::TimingFunction => 3,
        }
    }

    fn count() -> (r: usize) {
        4
    }

    open spec fn shorthand_name_spec() -> Seq<char> {
        "transition"@
    }

    fn shorthand_property_name() -> (r: &'static str) {
        "transition"
    }
}

/// A single value of an animation or transition property; durations in nanoseconds.
#[derive(Debug, Clone, PartialEq)]
pub enum AnimationSpecificValue<E> {
    /// An animation name, or a transitioned property name.
    Name(String),
    /// A duration or a delay.
    Duration(u128),
    /// An `animation-direction`.
    Direction(AnimationDirection),
    /// An `animation-fill-mode`.
    FillMode(AnimationFillMode),
    /// An `animation-iteration-count`.
    IterationCount(IterationCount),
    /// An `animation-play-state`.
    PlayState(AnimationPlayState),
    /// A timing (easing) function.
    TimingFunction(E),
    /// A value the shorthand left out.
    Default,
}

/// `b` is a copy of `a`, the timing function being a clone.
pub open spec fn value_cloned<E: Clone>(a: AnimationSpecificValue<E>, b: AnimationSpecificValue<E>) -> bool {
    match a {
        AnimationSpecificValue::TimingFunction(x) => b matches AnimationSpecificValue::TimingFunction(y) && cloned(x, y),
        _ => b == a,
    }
}

/// `b` is a copy of `a`, element by element.
pub open spec fn values_cloned<E: Clone>(a: Seq<AnimationSpecificValue<E>>, b: Seq<AnimationSpecificValue<E>>) -> bool {
    &&& a.len() == b.len()
    &&& forall|i: int| 0 <= i < a.len() ==> #[trigger] value_cloned(a[i], b[i])
}

/// Copies a value, cloning its timing function.
pub fn clone_value<E: Clone>(v: &AnimationSpecificValue<E>) -> (r: AnimationSpecificValue<E>)
    ensures
        value_cloned(*v, r),
{
    match v {
        AnimationSpecificValue::Name(n) => AnimationSpecificValue::Name(n.clone()),
        AnimationSpecificValue::Duration(d) => AnimationSpecificValue::Duration(*d),
        AnimationSpecificValue::Direction(d) => AnimationSpecificValue::Direction(*d),
        AnimationSpecificValue::FillMode(f) => AnimationSpecificValue::FillMode(*f),
        AnimationSpecificValue::IterationCount(c) => AnimationSpecificValue::IterationCount(*c),
        AnimationSpecificValue::PlayState(p) => AnimationSpecificValue::PlayState(*p),
        AnimationSpecificValue::TimingFunction(e) => AnimationSpecificValue::TimingFunction(e.clone()),
        AnimationSpecificValue::Default => AnimationSpecificValue::Default,
    }
}

/// Copies a list of values.
pub fn clone_values<E: Clone>(v: &Vec<AnimationSpecificValue<E>>) -> (r: Vec<AnimationSpecificValue<E>>)
    ensures
        values_cloned(v@, r@),
{
    let mut r: Vec<AnimationSpecificValue<E>> = Vec::new();
    let mut i: usize = 0;
    while i < v.len()
        invariant
            i <= v.len(),
            r@.len() == i,
            forall|k: int| 0 <= k < i ==> #[trigger] value_cloned(v@[k], r@[k]),
        decreases v.len() - i,
    {
        r.push(clone_value(&v[i]));
        i = i + 1;
    }
    r
}


/// The values of a property: given, or given through variables that did not
/// resolve to valid values.
#[derive(Debug, Clone, PartialEq)]
pub enum AnimationValues<T> {
    /// The values, one per animation or transition.
    Specific(Vec<T>),
    /// Variables that did not resolve; the declaration is dropped.
    Invalid,
}

/// A declaration: the `animation` / `transition` shorthand, or one of its properties.
#[derive(Debug, Clone, PartialEq)]
pub enum AnimationProperty<P, E> {
    /// The shorthand: one list of `(property, value)` pairs per animation.
    Shorthand(AnimationValues<Vec<(P, AnimationSpecificValue<E>)>>),
    /// A single property.
    SingleProperty {
        /// The property.
        property_id: P,
        /// Its values.
        values: AnimationValues<AnimationSpecificValue<E>>,
    },
}

impl<P, E> AnimationProperty<P, E> {
    /// A single property declaration, such as `animation-duration: 1s`.
    pub fn new_specific_property(property_id: P, values: Vec<AnimationSpecificValue<E>>) -> (r: Self)
        ensures
            r == (AnimationProperty::SingleProperty::<P, E> {
                property_id,
                values: AnimationValues::Specific(values),
            }),
    {
        AnimationProperty::SingleProperty { property_id, values: AnimationValues::Specific(values) }
    }

    /// A shorthand declaration, such as `animation: anim-1 1s, anim-2`.
    pub fn new_shorthand_specific(animations: Vec<Vec<(P, AnimationSpecificValue<E>)>>) -> (r: Self)
        ensures
            r == AnimationProperty::<P, E>::Shorthand(AnimationValues::Specific(animations)),
    {
        AnimationProperty::Shorthand(AnimationValues::Specific(animations))
    }
}

/// Declarations in the order they apply.
#[derive(Debug, Clone, PartialEq)]
pub struct AnimationProperties<P, E> {
    /// The declarations.
    pub properties: Vec<AnimationProperty<P, E>>,
}

/// The resolved values of each property, by slot; `None` for a property with
/// no declaration.
#[derive(Debug)]
pub struct PropertyValueMap<E> {
    /// Values of each slot.
    pub slots: Vec<Option<Vec<AnimationSpecificValue<E>>>>,
}

/// The values held in each slot.
pub open spec fn slots_view<E>(slots: Seq<Option<Vec<AnimationSpecificValue<E>>>>) -> Seq<Option<Seq<AnimationSpecificValue<E>>>> {
    Seq::new(slots.len(), |s: int| match slots[s] {
        Some(v) => Some(v@),
        None => None,
    })
}

impl<E> View for PropertyValueMap<E> {
    type V = Seq<Option<Seq<AnimationSpecificValue<E>>>>;

    open spec fn view(&self) -> Self::V {
        slots_view(self.slots@)
    }
}

/// `b` holds copies of the values of `a`, slot by slot.
pub open spec fn map_cloned<E: Clone>(
    a: Seq<Option<Seq<AnimationSpecificValue<E>>>>,
    b: Seq<Option<Seq<AnimationSpecificValue<E>>>>,
) -> bool {
    &&& a.len() == b.len()
    &&& forall|s: int| 0 <= s < a.len() ==> (#[trigger] a[s] is Some <==> b[s] is Some)
    &&& forall|s: int| 0 <= s < a.len() && #[trigger] a[s] is Some ==> values_cloned(a[s]->0, b[s]->0)
}

/// The last value an animation of a shorthand gives to slot `s`, if any.
pub open spec fn last_value<P: PropertyId, E>(anim: Seq<(P, AnimationSpecificValue<E>)>, s: int) -> Option<AnimationSpecificValue<E>>
    decreases anim.len(),
{
    if anim.len() == 0 {
        None
    } else if anim.last().0.slot_spec() == s {
        Some(anim.last().1)
    } else {
        last_value(anim.drop_last(), s)
    }
}

/// The value an animation of a shorthand gives to slot `s`: the default when left out.
pub open spec fn shorthand_value<P: PropertyId, E>(anim: Seq<(P, AnimationSpecificValue<E>)>, s: int) -> AnimationSpecificValue<E> {
    match last_value(anim, s) {
        Some(v) => v,
        None => AnimationSpecificValue::Default,
    }
}

/// The values a shorthand gives to slot `s`, one per animation.
pub open spec fn shorthand_values<P: PropertyId, E>(anims: Seq<Vec<(P, AnimationSpecificValue<E>)>>, s: int) -> Seq<AnimationSpecificValue<E>> {
    Seq::new(anims.len(), |i: int| shorthand_value(anims[i]@, s))
}

/// The slots after a shorthand: every slot is reset; with at least one
/// animation each slot holds one value per animation.
pub open spec fn shorthand_slots<P: PropertyId, E>(n: int, anims: Seq<Vec<(P, AnimationSpecificValue<E>)>>) -> Seq<Option<Seq<AnimationSpecificValue<E>>>> {
    Seq::new(n as nat, |s: int| if anims.len() == 0 { None } else { Some(shorthand_values(anims, s)) })
}

/// No slot holds values.
pub open spec fn empty_slots<E>(n: int) -> Seq<Option<Seq<AnimationSpecificValue<E>>>> {
    Seq::new(n as nat, |s: int| None)
}

/// The slots after applying one declaration.
pub open spec fn applied<P: PropertyId, E>(map: Seq<Option<Seq<AnimationSpecificValue<E>>>>, prop: AnimationProperty<P, E>) -> Seq<Option<Seq<AnimationSpecificValue<E>>>> {
    match prop {
        AnimationProperty::Shorthand(AnimationValues::Invalid) => empty_slots(map.len() as int),
        AnimationProperty::Shorthand(AnimationValues::Specific(anims)) => shorthand_slots(map.len() as int, anims@),
        AnimationProperty::SingleProperty { property_id, values: AnimationValues::Invalid } => map,
        AnimationProperty::SingleProperty { property_id, values: AnimationValues::Specific(vs) } =>
            map.update(property_id.slot_spec(), Some(vs@)),
    }
}

/// The slots after applying declarations in order.
pub open spec fn resolved<P: PropertyId, E>(map: Seq<Option<Seq<AnimationSpecificValue<E>>>>, props: Seq<AnimationProperty<P, E>>) -> Seq<Option<Seq<AnimationSpecificValue<E>>>>
    decreases props.len(),
{
    if props.len() == 0 {
        map
    } else {
        applied(resolved(map, props.drop_last()), props.last())
    }
}

/// Every slot copies itself.
pub proof fn lemma_map_cloned_refl<E: Clone>(a: Seq<Option<Seq<AnimationSpecificValue<E>>>>)
    ensures
        map_cloned(a, a),
{
    assert forall|s: int| 0 <= s < a.len() && #[trigger] a[s] is Some implies values_cloned(a[s]->0, a[s]->0) by {
        let v = a[s]->0;
        assert forall|i: int| 0 <= i < v.len() implies #[trigger] value_cloned(v[i], v[i]) by {}
    }
}

impl<E> PropertyValueMap<E> {
    /// A map with `n` slots and no values.
    pub fn new(n: usize) -> (r: Self)
        ensures
            r@ == empty_slots::<E>(n as int),
            r.slots@.len() == n,
    {
        let mut slots: Vec<Option<Vec<AnimationSpecificValue<E>>>> = Vec::new();
        let mut i: usize = 0;
        while i < n
            invariant
                i <= n,
                slots@.len() == i,
                forall|k: int| 0 <= k < i ==> #[trigger] slots@[k] is None,
            decreases n - i,
        {
            slots.push(None);
            i = i + 1;
        }
        let r = PropertyValueMap { slots };
        assert(r@ =~= empty_slots::<E>(n as int));
        r
    }

    /// The values of `property`, if it was declared.
    pub fn get<P: PropertyId>(&self, property: P) -> (r: Option<&Vec<AnimationSpecificValue<E>>>)
        requires
            self.slots@.len() == P::count_spec(),
        ensures
            0 <= property.slot_spec() < self.slots@.len(),
            match r {
                Some(v) => self.slots@[property.slot_spec()] == Some(*v),
                None => self.slots@[property.slot_spec()] is None,
            },
    {
        let slot = property.slot();
        match &self.slots[slot] {
            Some(v) => Some(v),
            None => None,
        }
    }
}

/// The value a shorthand animation gives to slot `s`, copied.
fn shorthand_value_exec<P: PropertyId, E: Clone>(anim: &Vec<(P, AnimationSpecificValue<E>)>, s: usize) -> (r: AnimationSpecificValue<E>)
    ensures
        value_cloned(shorthand_value(anim@, s as int), r),
{
    let mut r: AnimationSpecificValue<E> = AnimationSpecificValue::Default;
    let mut j: usize = 0;
    while j < anim.len()
        invariant
            j <= anim@.len(),
            value_cloned(shorthand_value(anim@.take(j as int), s as int), r),
        decreases anim.len() - j,
    {
        assert(anim@.take(j as int + 1).drop_last() =~= anim@.take(j as int));
        let (property_id, value) = &anim[j];
        if property_id.slot() == s {
            r = clone_value(value);
        }
        j = j + 1;
    }
    assert(anim@.take(anim@.len() as int) =~= anim@);
    r
}

impl<P: PropertyId, E: Clone> AnimationProperties<P, E> {
    /// Applies the declarations in order to `output`. A single property
    /// replaces the values of its slot. A shorthand first resets every slot;
    /// then, with one value list per animation, each slot gets one value per
    /// animation, the one the animation gives or the default. A declaration
    /// whose values are invalid is dropped, though a shorthand still resets.
    pub fn resolve_to_output(&self, output: &mut PropertyValueMap<E>)
        requires
            old(output).slots@.len() == P::count_spec(),
        ensures
            final(output).slots@.len() == P::count_spec(),
            map_cloned(resolved(old(output)@, self.properties@), final(output)@),
    {
        let n = P::count();
        let ghost start = output@;
        proof {
            lemma_map_cloned_refl(start);
        }
        let mut k: usize = 0;
        while k < self.properties.len()
            invariant
                k <= self.properties@.len(),
                n == P::count_spec(),
                output.slots@.len() == n,
                start.len() == n,
                map_cloned(resolved(start, self.properties@.take(k as int)), output@),
            decreases self.properties.len() - k,
        {
            let ghost before = resolved(start, self.properties@.take(k as int));
            assert(self.properties@.take(k as int + 1).drop_last() =~= self.properties@.take(k as int));
            match &self.properties[k] {
                AnimationProperty::Shorthand(values) => {
                    let mut s: usize = 0;
                    while s < n
                        invariant
                            s <= n,
                            output.slots@.len() == n,
                            forall|t: int| 0 <= t < s ==> #[trigger] output.slots@[t] is None,
                        decreases n - s,
                    {
                        output.slots.set(s, None);
                        s = s + 1;
                    }
                    assert(output@ =~= empty_slots::<E>(n as int));
                    match values {
                        AnimationValues::Invalid => {
                            proof { lemma_map_cloned_refl(output@); }
                        },
                        AnimationValues::Specific(anims) => {
                            if anims.len() > 0 {
                                let mut s: usize = 0;
                                while s < n
                                    invariant
                                        s <= n,
                                        anims@.len() > 0,
                                        output.slots@.len() == n,
                                        forall|t: int| s <= t < n ==> #[trigger] output.slots@[t] is None,
                                        forall|t: int| 0 <= t < s ==> #[trigger] output.slots@[t] is Some
                                            && values_cloned(shorthand_values(anims@, t), output.slots@[t]->0@),
                                    decreases n - s,
                                {
                                    let mut column: Vec<AnimationSpecificValue<E>> = Vec::new();
                                    let mut i: usize = 0;
                                    while i < anims.len()
                                        invariant
                                            i <= anims@.len(),
                                            column@.len() == i,
                                            forall|q: int| 0 <= q < i ==> #[trigger] value_cloned(shorthand_values(anims@, s as int)[q], column@[q]),
                                        decreases anims.len() - i,
                                    {
                                        column.push(shorthand_value_exec(&anims[i], s));
                                        i = i + 1;
                                    }
                                    output.slots.set(s, Some(column));
                                    s = s + 1;
                                }
                            }
                            let ghost expected = shorthand_slots::<P, E>(n as int, anims@);
                            assert(map_cloned(expected, output@));
                        },
                    }
                },
                AnimationProperty::SingleProperty { property_id, values } => {
                    match values {
                        AnimationValues::Invalid => {},
                        AnimationValues::Specific(vs) => {
                            let slot = property_id.slot();
                            let copy = clone_values(vs);
                            let ghost prev = output@;
                            output.slots.set(slot, Some(copy));
                            proof {
                                let expected = before.update(slot as int, Some(vs@));
                                assert forall|t: int| 0 <= t < n && #[trigger] expected[t] is Some
                                    implies values_cloned(expected[t]->0, output@[t]->0) by {
                                    if t != slot {
                                        assert(output@[t] == prev[t]);
                                    }
                                }
                            }
                        },
                    }
                },
            }
            k = k + 1;
        }
        assert(self.properties@.take(self.properties@.len() as int) =~= self.properties@);
    }
}


/// The configuration of one animation.
#[derive(Debug, Clone, PartialEq)]
pub struct AnimationConfiguration<E> {
    /// Name of the animation.
    pub name: String,
    /// Timing function used between keyframes that set none.
    pub default_timing_function: E,
    /// Options.
    pub options: AnimationOptions,
}

/// The configuration of one transition.
#[derive(Debug, Clone, PartialEq)]
pub struct TransitionConfiguration<E> {
    /// Name of the transitioned property.
    pub property_name: String,
    /// Options.
    pub options: TransitionOptions<E>,
}

/// The value for animation `index` among `values`: the value at that index,
/// or the last one when there are fewer values than animations.
pub open spec fn value_at<E>(values: Option<Seq<AnimationSpecificValue<E>>>, index: int) -> Option<AnimationSpecificValue<E>> {
    match values {
        Some(vs) => if vs.len() == 0 {
            None
        } else if index < vs.len() {
            Some(vs[index])
        } else {
            Some(vs.last())
        },
        None => None,
    }
}

/// Positions of the names among `names`, in order.
pub open spec fn name_indices<E>(names: Seq<AnimationSpecificValue<E>>) -> Seq<int>
    decreases names.len(),
{
    if names.len() == 0 {
        Seq::empty()
    } else if names.last() is Name {
        name_indices(names.drop_last()).push(names.len() - 1)
    } else {
        name_indices(names.drop_last())
    }
}

/// The values declared for the names slot.
pub open spec fn declared_names<E>(map: Seq<Option<Seq<AnimationSpecificValue<E>>>>) -> Seq<AnimationSpecificValue<E>> {
    match map[0] {
        Some(v) => v,
        None => Seq::empty(),
    }
}

/// A duration value, or `default`.
pub open spec fn duration_or<E>(v: Option<AnimationSpecificValue<E>>, default: u128) -> u128 {
    match v {
        Some(AnimationSpecificValue::Duration(d)) => d,
        _ => default,
    }
}

/// The configuration of the animation named at position `index` of the names slot.
pub open spec fn animation_config_matches<E: Clone>(
    map: Seq<Option<Seq<AnimationSpecificValue<E>>>>,
    index: int,
    default_timing_function: E,
    c: AnimationConfiguration<E>,
) -> bool {
    let at = |p: AnimationPropertyId| value_at(map[p.slot_spec()], index);
    &&& declared_names(map)[index] == AnimationSpecificValue::<E>::Name(c.name)
    &&& c.options.duration == duration_or(at(AnimationPropertyId::Duration), 0)
    &&& c.options.initial_delay == duration_or(at(AnimationPropertyId::Delay), 0)
    &&& c.options.direction == match at(AnimationPropertyId::Direction) {
        Some(AnimationSpecificValue::Direction(d)) => d,
        _ => AnimationDirection::Normal,
    }
    &&& c.options.fill_mode == match at(AnimationPropertyId::FillMode) {
        Some(AnimationSpecificValue::FillMode(f)) => f,
        _ => AnimationFillMode::NoFill,
    }
    &&& c.options.iteration_count == match at(AnimationPropertyId::IterationCount) {
        Some(AnimationSpecificValue::IterationCount(n)) => n,
        _ => IterationCount::Count(1),
    }
    &&& c.options.play_state == match at(AnimationPropertyId::PlayState) {
        Some(AnimationSpecificValue::PlayState(p)) => p,
        _ => AnimationPlayState::Running,
    }
    &&& match at(AnimationPropertyId::TimingFunction) {
        Some(AnimationSpecificValue::TimingFunction(e)) => cloned(e, c.default_timing_function),
        _ => cloned(default_timing_function, c.default_timing_function),
    }
}

/// The configuration of the transition of the property named at position
/// `index` of the names slot.
pub open spec fn transition_config_matches<E: Clone>(
    map: Seq<Option<Seq<AnimationSpecificValue<E>>>>,
    index: int,
    default_timing_function: E,
    c: TransitionConfiguration<E>,
) -> bool {
    let at = |p: TransitionPropertyId| value_at(map[p.slot_spec()], index);
    &&& declared_names(map)[index] == AnimationSpecificValue::<E>::Name(c.property_name)
    &&& c.options.duration == duration_or(at(TransitionPropertyId::Duration), 0)
    &&& c.options.initial_delay == duration_or(at(TransitionPropertyId::Delay), 0)
    &&& match at(TransitionPropertyId::TimingFunction) {
        Some(AnimationSpecificValue::TimingFunction(e)) => cloned(e, c.options.timing_function),
        _ => cloned(default_timing_function, c.options.timing_function),
    }
}

/// The value of `property` for animation `index`.
fn value_at_index<P: PropertyId, E>(map: &PropertyValueMap<E>, property: P, index: usize) -> (r: Option<&AnimationSpecificValue<E>>)
    requires
        map.slots@.len() == P::count_spec(),
    ensures
        match r {
            Some(v) => value_at(map@[property.slot_spec()], index as int) == Some(*v),
            None => value_at(map@[property.slot_spec()], index as int) is None,
        },
{
    match map.get(property) {
        Some(values) => {
            if values.len() == 0 {
                None
            } else if index < values.len() {
                Some(&values[index])
            } else {
                Some(&values[values.len() - 1])
            }
        },
        None => None,
    }
}

/// A duration value of `property` for animation `index`, if any.
fn duration_at<P: PropertyId, E>(map: &PropertyValueMap<E>, property: P, index: usize, default: u128) -> (r: u128)
    requires
        map.slots@.len() == P::count_spec(),
    ensures
        r == duration_or(value_at(map@[property.slot_spec()], index as int), default),
{
    match value_at_index(map, property, index) {
        Some(AnimationSpecificValue::Duration(d)) => *d,
        _ => default,
    }
}

/// The timing function of `property` for animation `index`, or a clone of `default`.
fn timing_function_at<P: PropertyId, E: Clone>(map: &PropertyValueMap<E>, property: P, index: usize, default: &E) -> (r: E)
    requires
        map.slots@.len() == P::count_spec(),
    ensures
        match value_at(map@[property.slot_spec()], index as int) {
            Some(AnimationSpecificValue::TimingFunction(e)) => cloned(e, r),
            _ => cloned(*default, r),
        },
{
    match value_at_index(map, property, index) {
        Some(AnimationSpecificValue::TimingFunction(e)) => e.clone(),
        _ => default.clone(),
    }
}

/// One configuration per name of `animation-name`, in order. Every other
/// property takes the value at the animation's position, or its last value
/// when it has fewer values; a missing value keeps the default option, and a
/// missing timing function is `default_timing_function`.
pub fn from_properties_to_animation_configuration<E: Clone>(
    animation_properties: &PropertyValueMap<E>,
    default_timing_function: &E,
) -> (r: Vec<AnimationConfiguration<E>>)
    requires
        animation_properties.slots@.len() == AnimationPropertyId::count_spec(),
    ensures
        r@.len() == name_indices(declared_names(animation_properties@)).len(),
        forall|k: int| 0 <= k < r@.len() ==> #[trigger] animation_config_matches(
            animation_properties@,
            name_indices(declared_names(animation_properties@))[k],
            *default_timing_function,
            r@[k],
        ),
{
    let map = animation_properties;
    let mut result: Vec<AnimationConfiguration<E>> = Vec::new();
    let names = match map.get(AnimationPropertyId::Name) {
        Some(names) => names,
        None => {
            assert(declared_names(map@) =~= Seq::<AnimationSpecificValue<E>>::empty());
            return result;
        },
    };
    assert(names@ == declared_names(map@));
    let mut i: usize = 0;
    while i < names.len()
        invariant
            i <= names@.len(),
            names@ == declared_names(map@),
            map.slots@.len() == AnimationPropertyId::count_spec(),
            result@.len() == name_indices(names@.take(i as int)).len(),
            forall|k: int| 0 <= k < result@.len() ==> #[trigger] animation_config_matches(
                map@,
                name_indices(names@.take(i as int))[k],
                *default_timing_function,
                result@[k],
            ),
            forall|k: int| 0 <= k < name_indices(names@.take(i as int)).len()
                ==> 0 <= #[trigger] name_indices(names@.take(i as int))[k] < i,
        decreases names.len() - i,
    {
        assert(names@.take(i as int + 1).drop_last() =~= names@.take(i as int));
        if let AnimationSpecificValue::Name(name) = &names[i] {
            let mut options = AnimationOptions::default();
            options.duration = duration_at(map, AnimationPropertyId::Duration, i, 0);
            options.initial_delay = duration_at(map, AnimationPropertyId::Delay, i, 0);
            if let Some(AnimationSpecificValue::Direction(d)) = value_at_index(map, AnimationPropertyId::Direction, i) {
                options.direction = *d;
            }
            if let Some(AnimationSpecificValue::FillMode(f)) = value_at_index(map, AnimationPropertyId::FillMode, i) {
                options.fill_mode = *f;
            }
            if let Some(AnimationSpecificValue::IterationCount(n)) = value_at_index(map, AnimationPropertyId::IterationCount, i) {
                options.iteration_count = *n;
            }
            if let Some(AnimationSpecificValue::PlayState(p)) = value_at_index(map, AnimationPropertyId::PlayState, i) {
                options.play_state = *p;
            }
            let default_timing = timing_function_at(map, AnimationPropertyId::TimingFunction, i, default_timing_function);
            let configuration = AnimationConfiguration {
                name: name.clone(),
                default_timing_function: default_timing,
                options,
            };
            result.push(configuration);
        }
        i = i + 1;
    }
    assert(names@.take(names@.len() as int) =~= names@);
    result
}

/// One configuration per name of `transition-property`, in order, built as
/// for animations.
pub fn from_properties_to_transition_configuration<E: Clone>(
    transition_properties: &PropertyValueMap<E>,
    default_timing_function: &E,
) -> (r: Vec<TransitionConfiguration<E>>)
    requires
        transition_properties.slots@.len() == TransitionPropertyId::count_spec(),
    ensures
        r@.len() == name_indices(declared_names(transition_properties@)).len(),
        forall|k: int| 0 <= k < r@.len() ==> #[trigger] transition_config_matches(
            transition_properties@,
            name_indices(declared_names(transition_properties@))[k],
            *default_timing_function,
            r@[k],
        ),
{
    let map = transition_properties;
    let mut result: Vec<TransitionConfiguration<E>> = Vec::new();
    let names = match map.get(TransitionPropertyId::PropertyName) {
        Some(names) => names,
        None => {
            assert(declared_names(map@) =~= Seq::<AnimationSpecificValue<E>>::empty());
            return result;
        },
    };
    assert(names@ == declared_names(map@));
    let mut i: usize = 0;
    while i < names.len()
        invariant
            i <= names@.len(),
            names@ == declared_names(map@),
            map.slots@.len() == TransitionPropertyId::count_spec(),
            result@.len() == name_indices(names@.take(i as int)).len(),
            forall|k: int| 0 <= k < result@.len() ==> #[trigger] transition_config_matches(
                map@,
                name_indices(names@.take(i as int))[k],
                *default_timing_function,
                result@[k],
            ),
            forall|k: int| 0 <= k < name_indices(names@.take(i as int)).len()
                ==> 0 <= #[trigger] name_indices(names@.take(i as int))[k] < i,
        decreases names.len() - i,
    {
        assert(names@.take(i as int + 1).drop_last() =~= names@.take(i as int));
        if let AnimationSpecificValue::Name(name) = &names[i] {
            let options = TransitionOptions {
                initial_delay: duration_at(map, TransitionPropertyId::Delay, i, 0),
                duration: duration_at(map, TransitionPropertyId::Duration, i, 0),
                timing_function: timing_function_at(map, TransitionPropertyId::TimingFunction, i, default_timing_function),
            };
            result.push(TransitionConfiguration { property_name: name.clone(), options });
        }
        i = i + 1;
    }
    assert(names@.take(names@.len() as int) =~= names@);
    result
}

/// `b` is a copy of `a`, its timing function cloned.
pub open spec fn options_cloned<E: Clone>(a: TransitionOptions<E>, b: TransitionOptions<E>) -> bool {
    &&& b.initial_delay == a.initial_delay
    &&& b.duration == a.duration
    &&& cloned(a.timing_function, b.timing_function)
}

/// Each property a transition configuration applies to, with the index of
/// the configuration, in order: `resolved[i]` gives the properties the name
/// of configuration `i` stands for (several for a shorthand), `None` when it
/// stands for none.
pub open spec fn option_targets(resolved: Seq<Option<Vec<usize>>>) -> Seq<(usize, int)>
    decreases resolved.len(),
{
    if resolved.len() == 0 {
        Seq::empty()
    } else {
        option_targets(resolved.drop_last()) + match resolved.last() {
            Some(ps) => Seq::new(ps@.len(), |k: int| (ps@[k], resolved.len() - 1)),
            None => Seq::empty(),
        }
    }
}

/// The transition options of each property: every property a configuration
/// applies to gets a copy of its options, in order of the configurations.
pub fn transition_options_by_property<E: Clone>(
    configurations: &Vec<TransitionConfiguration<E>>,
    resolved: &Vec<Option<Vec<usize>>>,
) -> (r: Vec<(usize, TransitionOptions<E>)>)
    requires
        resolved@.len() == configurations@.len(),
    ensures
        r@.len() == option_targets(resolved@).len(),
        forall|j: int| 0 <= j < r@.len() ==> {
            &&& (#[trigger] r@[j]).0 == option_targets(resolved@)[j].0
            &&& options_cloned(configurations@[option_targets(resolved@)[j].1].options, r@[j].1)
        },
{
    let mut r: Vec<(usize, TransitionOptions<E>)> = Vec::new();
    let mut i: usize = 0;
    while i < configurations.len()
        invariant
            i <= configurations@.len(),
            resolved@.len() == configurations@.len(),
            r@.len() == option_targets(resolved@.take(i as int)).len(),
            forall|j: int| 0 <= j < option_targets(resolved@.take(i as int)).len() ==> 0 <= (#[trigger] option_targets(resolved@.take(i as int))[j]).1 < i,
            forall|j: int| 0 <= j < r@.len() ==> {
                &&& (#[trigger] r@[j]).0 == option_targets(resolved@.take(i as int))[j].0
                &&& options_cloned(configurations@[option_targets(resolved@.take(i as int))[j].1].options, r@[j].1)
            },
        decreases configurations.len() - i,
    {
        assert(resolved@.take(i + 1).drop_last() =~= resolved@.take(i as int));
        let ghost before = option_targets(resolved@.take(i as int));
        let ghost base = r@.len();
        match &resolved[i] {
            Some(properties) => {
                let options = &configurations[i].options;
                let mut k: usize = 0;
                while k < properties.len()
                    invariant
                        k <= properties@.len(),
                        i < configurations@.len(),
                        options == configurations@[i as int].options,
                        r@.len() == base + k,
                        base == before.len(),
                        forall|j: int| 0 <= j < base ==> {
                            &&& (#[trigger] r@[j]).0 == before[j].0
                            &&& options_cloned(configurations@[before[j].1].options, r@[j].1)
                        },
                        forall|j: int| base <= j < base + k ==> {
                            &&& (#[trigger] r@[j]).0 == properties@[j - base]
                            &&& options_cloned(*options, r@[j].1)
                        },
                    decreases properties.len() - k,
                {
                    let copy = TransitionOptions {
                        initial_delay: options.initial_delay,
                        duration: options.duration,
                        timing_function: options.timing_function.clone(),
                    };
                    r.push((properties[k], copy));
                    k = k + 1;
                }
                assert(resolved@.take(i + 1).last() == resolved@[i as int]);
            },
            None => {
                assert(resolved@.take(i + 1).last() == resolved@[i as int]);
            },
        }
        i = i + 1;
    }
    assert(resolved@.take(i as int) =~= resolved@);
    r
}

} // verus!
