//! The running animations and transitions of one node, by property, and the
//! events their changes raise. Properties are identified by their index.

use vstd::prelude::*;
use crate::animations::animation::{
    can_replay, fresh_view, replayed, Animation, AnimationOptions, AnimationPlayState, AnimationState, AnimationView, IterationCount,
};
use crate::animations::properties::AnimationConfiguration;
use crate::layers::str_equal;
use crate::animations::transition::{fresh_transition, Transition, TransitionOptions, TransitionState};
use crate::time::MAX_DURATION_NANOS;

verus! {

/// What happened to a transition.
#[derive(Debug, Clone, Copy, PartialEq, Eq, Structural)]
pub enum TransitionEventType {
    /// It started running.
    Started,
    /// A new transition replaced it.
    Replaced,
    /// It was canceled.
    Canceled,
    /// It is over.
    Finished,
}

/// What happened to an animation.
#[derive(Debug, Clone, Copy, PartialEq, Eq, Structural)]
pub enum AnimationEventType {
    /// It started running.
    Started,
    /// It was paused.
    Paused,
    /// It was canceled.
    Canceled,
    /// It is over.
    Finished,
}

/// A change of the transition of a property.
#[derive(Debug, Clone, Copy, PartialEq, Eq, Structural)]
pub struct TransitionEvent {
    /// What happened.
    pub event_type: TransitionEventType,
    /// The property.
    pub property_id: usize,
}

/// A change of an animation of a property.
#[derive(Debug, Clone, PartialEq, Eq)]
pub struct AnimationEvent {
    /// What happened.
    pub event_type: AnimationEventType,
    /// Name of the animation.
    pub name: String,
    /// The property.
    pub property_id: usize,
}

/// The animations and transitions of a node, and the events not yet emitted.
#[derive(Debug)]
pub struct StyleAnimations<E> {
    /// Transition options, by property.
    pub transitions_options: Vec<(usize, TransitionOptions<E>)>,
    /// Transitions, by property.
    pub transitions: Vec<(usize, Transition)>,
    /// Transition events not yet emitted, in order.
    pub pending_transition_events: Vec<TransitionEvent>,
    /// Animations by name: one per animated property.
    pub animations: Vec<(String, Vec<(usize, Animation)>)>,
    /// Animation events not yet emitted, in order.
    pub pending_animation_events: Vec<AnimationEvent>,
    /// The configurations the animations were last set from.
    pub current_animation_configs: Vec<AnimationConfiguration<E>>,
}

/// The events a tick of `delta` raises for the transition of `property`:
/// it started when it leaves pending, and it is reported finished while it is.
pub open spec fn transition_tick_events(property: usize, t: Transition, delta: int) -> Seq<TransitionEvent> {
    let after = t.ticked(delta);
    let started: Seq<TransitionEvent> = if t.state == TransitionState::Pending && after.state != TransitionState::Pending {
        seq![TransitionEvent { event_type: TransitionEventType::Started, property_id: property }]
    } else {
        Seq::empty()
    };
    let finished: Seq<TransitionEvent> = if after.state == TransitionState::Finished {
        seq![TransitionEvent { event_type: TransitionEventType::Finished, property_id: property }]
    } else {
        Seq::empty()
    };
    started + finished
}

/// The events a tick of `delta` raises for all transitions, in order.
pub open spec fn transitions_tick_events(ts: Seq<(usize, Transition)>, delta: int) -> Seq<TransitionEvent>
    decreases ts.len(),
{
    if ts.len() == 0 {
        Seq::empty()
    } else {
        transitions_tick_events(ts.drop_last(), delta) + transition_tick_events(ts.last().0, ts.last().1, delta)
    }
}

/// Whether a tick can change an animation in this state.
pub open spec fn animation_tickable(s: AnimationState) -> bool {
    s == AnimationState::Pending || s == AnimationState::Running || s == AnimationState::JustFinished
}

/// The event types a tick of `delta` raises for an animation: it started
/// when it leaves pending, and it finished when it was pending or running
/// and has just finished.
pub open spec fn animation_tick_event_types(a: AnimationView, delta: int) -> Seq<AnimationEventType> {
    if !animation_tickable(a.state) {
        Seq::empty()
    } else {
        let after = a.ticked(delta);
        let started: Seq<AnimationEventType> = if a.state == AnimationState::Pending && after.state != AnimationState::Pending {
            seq![AnimationEventType::Started]
        } else {
            Seq::empty()
        };
        let finished: Seq<AnimationEventType> = if (a.state == AnimationState::Pending || a.state == AnimationState::Running)
            && after.state == AnimationState::JustFinished {
            seq![AnimationEventType::Finished]
        } else {
            Seq::empty()
        };
        started + finished
    }
}

/// The events of the types `types` for the animation `name` of `property`.
pub open spec fn animation_events(types: Seq<AnimationEventType>, name: String, property: usize) -> Seq<AnimationEvent> {
    Seq::new(types.len(), |i: int| AnimationEvent { event_type: types[i], name, property_id: property })
}

/// The events a tick of `delta` raises for one animation group, in order.
pub open spec fn group_tick_events(name: String, group: Seq<(usize, Animation)>, delta: int) -> Seq<AnimationEvent>
    decreases group.len(),
{
    if group.len() == 0 {
        Seq::empty()
    } else {
        group_tick_events(name, group.drop_last(), delta)
            + animation_events(animation_tick_event_types(group.last().1@, delta), group.last().1.name, group.last().0)
    }
}

/// The events a tick of `delta` raises for all animations, in order.
pub open spec fn animations_tick_events(gs: Seq<(String, Vec<(usize, Animation)>)>, delta: int) -> Seq<AnimationEvent>
    decreases gs.len(),
{
    if gs.len() == 0 {
        Seq::empty()
    } else {
        animations_tick_events(gs.drop_last(), delta) + group_tick_events(gs.last().0, gs.last().1@, delta)
    }
}

/// Every transition is well-formed.
pub open spec fn transitions_wf(ts: Seq<(usize, Transition)>) -> bool {
    forall|i: int| 0 <= i < ts.len() ==> (#[trigger] ts[i]).1.wf()
}

/// Every animation is well-formed and can be ticked by `delta`.
pub open spec fn animations_tickable_by(gs: Seq<(String, Vec<(usize, Animation)>)>, delta: int) -> bool {
    forall|g: int, i: int| 0 <= g < gs.len() && 0 <= i < gs[g].1@.len() ==> {
        &&& (#[trigger] gs[g].1@[i]).1@.wf()
        &&& gs[g].1@[i].1@.can_tick_by(delta)
    }
}

/// Two animation lists hold the same animations, each ticked by `delta`.
pub open spec fn group_ticked(before: Seq<(usize, Animation)>, after: Seq<(usize, Animation)>, delta: int) -> bool {
    &&& before.len() == after.len()
    &&& forall|i: int| 0 <= i < before.len() ==> {
        &&& (#[trigger] after[i]).0 == before[i].0
        &&& after[i].1@ == before[i].1@.ticked(delta)
        &&& after[i].1.name == before[i].1.name
    }
}

impl<E> StyleAnimations<E> {
    /// No animation, transition or pending event.
    pub fn new() -> (r: Self)
        ensures
            r.transitions_options@.len() == 0,
            r.transitions@.len() == 0,
            r.pending_transition_events@.len() == 0,
            r.animations@.len() == 0,
            r.pending_animation_events@.len() == 0,
    {
        StyleAnimations {
            transitions_options: Vec::new(),
            transitions: Vec::new(),
            pending_transition_events: Vec::new(),
            animations: Vec::new(),
            pending_animation_events: Vec::new(),
            current_animation_configs: Vec::new(),
        }
    }

    /// Whether events wait to be emitted.
    pub fn has_pending_events(&self) -> (r: bool)
        ensures
            r == (self.pending_transition_events@.len() > 0 || self.pending_animation_events@.len() > 0),
    {
        self.pending_transition_events.len() > 0 || self.pending_animation_events.len() > 0
    }

    /// Hands out the pending events, in order, leaving none.
    pub fn take_pending_events(&mut self) -> (r: (Vec<TransitionEvent>, Vec<AnimationEvent>))
        ensures
            r.0@ == old(self).pending_transition_events@,
            r.1@ == old(self).pending_animation_events@,
            final(self).pending_transition_events@.len() == 0,
            final(self).pending_animation_events@.len() == 0,
            final(self).transitions@ == old(self).transitions@,
            final(self).animations@ == old(self).animations@,
            final(self).transitions_options@ == old(self).transitions_options@,
    {
        let mut transition_events: Vec<TransitionEvent> = Vec::new();
        let mut animation_events: Vec<AnimationEvent> = Vec::new();
        std::mem::swap(&mut transition_events, &mut self.pending_transition_events);
        std::mem::swap(&mut animation_events, &mut self.pending_animation_events);
        (transition_events, animation_events)
    }

    /// Advances every transition and animation by `delta` nanoseconds, noting
    /// the events this raises.
    pub fn tick_animations(&mut self, delta: u128)
        requires
            delta <= MAX_DURATION_NANOS,
            transitions_wf(old(self).transitions@),
            animations_tickable_by(old(self).animations@, delta as int),
        ensures
            final(self).transitions@.len() == old(self).transitions@.len(),
            forall|i: int| 0 <= i < old(self).transitions@.len() ==> {
                &&& (#[trigger] final(self).transitions@[i]).0 == old(self).transitions@[i].0
                &&& final(self).transitions@[i].1 == old(self).transitions@[i].1.ticked(delta as int)
            },
            final(self).pending_transition_events@ == old(self).pending_transition_events@
                + transitions_tick_events(old(self).transitions@, delta as int),
            final(self).animations@.len() == old(self).animations@.len(),
            forall|g: int| 0 <= g < old(self).animations@.len() ==> {
                &&& (#[trigger] final(self).animations@[g]).0 == old(self).animations@[g].0
                &&& group_ticked(old(self).animations@[g].1@, final(self).animations@[g].1@, delta as int)
            },
            final(self).pending_animation_events@ == old(self).pending_animation_events@
                + animations_tick_events(old(self).animations@, delta as int),
            final(self).transitions_options@ == old(self).transitions_options@,
    {
        let ghost ts0 = self.transitions@;
        let mut rest: Vec<(usize, Transition)> = Vec::new();
        std::mem::swap(&mut rest, &mut self.transitions);
        let ghost mut t: int = 0;
        while rest.len() > 0
            invariant
                0 <= t <= ts0.len(),
                rest@ == ts0.skip(t),
                transitions_wf(ts0),
                delta <= MAX_DURATION_NANOS,
                self.transitions@.len() == t,
                forall|i: int| 0 <= i < t ==> {
                    &&& (#[trigger] self.transitions@[i]).0 == ts0[i].0
                    &&& self.transitions@[i].1 == ts0[i].1.ticked(delta as int)
                },
                self.pending_transition_events@ == old(self).pending_transition_events@
                    + transitions_tick_events(ts0.take(t), delta as int),
                self.animations@ == old(self).animations@,
                self.pending_animation_events@ == old(self).pending_animation_events@,
                self.transitions_options@ == old(self).transitions_options@,
            decreases rest.len(),
        {
            assert(rest@[0] == ts0[t]);
            assert(ts0.take(t + 1).drop_last() =~= ts0.take(t));
            let (property_id, mut transition) = rest.remove(0);
            assert(transition.wf());
            let was_pending = transition.state == TransitionState::Pending;
            transition.tick(delta);
            let ghost before = self.pending_transition_events@;
            if was_pending && transition.state != TransitionState::Pending {
                self.pending_transition_events.push(TransitionEvent { event_type: TransitionEventType::Started, property_id });
            }
            if transition.state == TransitionState::Finished {
                self.pending_transition_events.push(TransitionEvent { event_type: TransitionEventType::Finished, property_id });
            }
            assert(self.pending_transition_events@ =~= before + transition_tick_events(ts0[t].0, ts0[t].1, delta as int));
            self.transitions.push((property_id, transition));
            proof {
                t = t + 1;
            }
            assert(rest@ =~= ts0.skip(t));
            assert(self.pending_transition_events@ =~= old(self).pending_transition_events@
                + transitions_tick_events(ts0.take(t), delta as int));
        }
        assert(ts0.take(t) =~= ts0);

        let ghost gs0 = self.animations@;
        let mut groups: Vec<(String, Vec<(usize, Animation)>)> = Vec::new();
        std::mem::swap(&mut groups, &mut self.animations);
        let ghost mut g: int = 0;
        while groups.len() > 0
            invariant
                0 <= g <= gs0.len(),
                groups@ == gs0.skip(g),
                animations_tickable_by(gs0, delta as int),
                delta <= MAX_DURATION_NANOS,
                self.animations@.len() == g,
                forall|k: int| 0 <= k < g ==> {
                    &&& (#[trigger] self.animations@[k]).0 == gs0[k].0
                    &&& group_ticked(gs0[k].1@, self.animations@[k].1@, delta as int)
                },
                self.pending_animation_events@ == old(self).pending_animation_events@
                    + animations_tick_events(gs0.take(g), delta as int),
                self.transitions@.len() == ts0.len(),
                forall|i: int| 0 <= i < ts0.len() ==> {
                    &&& (#[trigger] self.transitions@[i]).0 == ts0[i].0
                    &&& self.transitions@[i].1 == ts0[i].1.ticked(delta as int)
                },
                self.pending_transition_events@ == old(self).pending_transition_events@
                    + transitions_tick_events(ts0, delta as int),
                self.transitions_options@ == old(self).transitions_options@,
            decreases groups.len(),
        {
            assert(groups@[0] == gs0[g]);
            assert(gs0.take(g + 1).drop_last() =~= gs0.take(g));
            let (name, group) = groups.remove(0);
            let ghost group0 = group@;
            let mut members = group;
            let mut ticked: Vec<(usize, Animation)> = Vec::new();
            let ghost mut i: int = 0;
            let ghost events_before = self.pending_animation_events@;
            let ghost done = self.animations@;
            let ghost done_transitions = self.transitions@;
            let ghost done_transition_events = self.pending_transition_events@;
            while members.len() > 0
                invariant
                    self.animations@ == done,
                    self.transitions@ == done_transitions,
                    self.pending_transition_events@ == done_transition_events,
                    self.transitions_options@ == old(self).transitions_options@,
                    0 <= i <= group0.len(),
                    members@ == group0.skip(i),
                    group0 == gs0[g].1@,
                    0 <= g < gs0.len(),
                    animations_tickable_by(gs0, delta as int),
                    delta <= MAX_DURATION_NANOS,
                    ticked@.len() == i,
                    forall|k: int| 0 <= k < i ==> {
                        &&& (#[trigger] ticked@[k]).0 == group0[k].0
                        &&& ticked@[k].1@ == group0[k].1@.ticked(delta as int)
                        &&& ticked@[k].1.name == group0[k].1.name
                    },
                    self.pending_animation_events@ == events_before + group_tick_events(name, group0.take(i), delta as int),
                decreases members.len(),
            {
                assert(members@[0] == group0[i]);
                assert(group0.take(i + 1).drop_last() =~= group0.take(i));
                let (property_id, mut animation) = members.remove(0);
                assert(animation@.wf() && animation@.can_tick_by(delta as int)) by {
                    assert(gs0[g].1@[i] == group0[i]);
                }
                let ghost before_events = self.pending_animation_events@;
                if animation.can_be_ticked() {
                    let was_pending = animation.state == AnimationState::Pending;
                    let was_running = was_pending || animation.state == AnimationState::Running;
                    animation.tick(delta);
                    if was_pending && animation.state != AnimationState::Pending {
                        self.pending_animation_events.push(AnimationEvent {
                            event_type: AnimationEventType::Started,
                            name: animation.name.clone(),
                            property_id,
                        });
                    }
                    if was_running && animation.state == AnimationState::JustFinished {
                        self.pending_animation_events.push(AnimationEvent {
                            event_type: AnimationEventType::Finished,
                            name: animation.name.clone(),
                            property_id,
                        });
                    }
                }
                assert(self.pending_animation_events@ =~= before_events + animation_events(
                    animation_tick_event_types(group0[i].1@, delta as int), group0[i].1.name, group0[i].0));
                ticked.push((property_id, animation));
                proof {
                    i = i + 1;
                }
                assert(members@ =~= group0.skip(i));
                assert(self.pending_animation_events@ =~= events_before + group_tick_events(name, group0.take(i), delta as int));
            }
            assert(group0.take(i) =~= group0);
            self.animations.push((name, ticked));
            proof {
                g = g + 1;
            }
            assert(groups@ =~= gs0.skip(g));
            assert(self.pending_animation_events@ =~= old(self).pending_animation_events@
                + animations_tick_events(gs0.take(g), delta as int));
        }
        assert(gs0.take(g) =~= gs0);
    }
}


/// Whether a transition is over or canceled.
pub open spec fn transition_ended(entry: (usize, Transition)) -> bool {
    entry.1.state == TransitionState::Finished || entry.1.state == TransitionState::Canceled
}

/// Whether no animation of a group is canceled.
pub open spec fn group_uncanceled(entry: (String, Vec<(usize, Animation)>)) -> bool {
    forall|i: int| 0 <= i < entry.1@.len() ==> (#[trigger] entry.1@[i]).1.state != AnimationState::Canceled
}

/// Whether a transition emits a value.
pub open spec fn transition_active(entry: (usize, Transition)) -> bool {
    entry.1.tickable()
}

impl<E> StyleAnimations<E> {
    /// Drops transitions that are over or canceled, and animation groups
    /// where an animation was canceled.
    pub fn clear_finished_and_canceled_animations(&mut self)
        ensures
            final(self).transitions@ == old(self).transitions@.filter(|e: (usize, Transition)| !transition_ended(e)),
            final(self).animations@ == old(self).animations@.filter(
                |g: (String, Vec<(usize, Animation)>)| group_uncanceled(g)),
            final(self).pending_transition_events@ == old(self).pending_transition_events@,
            final(self).pending_animation_events@ == old(self).pending_animation_events@,
            final(self).transitions_options@ == old(self).transitions_options@,
    {
        broadcast use vstd::seq::Seq::lemma_filter_push;
        let ghost keep_t = |e: (usize, Transition)| !transition_ended(e);
        let ghost ts0 = self.transitions@;
        let mut rest: Vec<(usize, Transition)> = Vec::new();
        std::mem::swap(&mut rest, &mut self.transitions);
        let ghost mut t: int = 0;
        assert(ts0.take(0).filter(keep_t) =~= Seq::<(usize, Transition)>::empty());
        while rest.len() > 0
            invariant
                0 <= t <= ts0.len(),
                rest@ == ts0.skip(t),
                self.transitions@ == ts0.take(t).filter(keep_t),
                keep_t == (|e: (usize, Transition)| !transition_ended(e)),
                self.animations@ == old(self).animations@,
                self.pending_transition_events@ == old(self).pending_transition_events@,
                self.pending_animation_events@ == old(self).pending_animation_events@,
                self.transitions_options@ == old(self).transitions_options@,
            decreases rest.len(),
        {
            assert(rest@[0] == ts0[t]);
            assert(ts0.take(t + 1) =~= ts0.take(t).push(ts0[t]));
            proof {
                ts0.take(t).lemma_filter_push(ts0[t], keep_t);
            }
            let entry = rest.remove(0);
            if !(entry.1.state == TransitionState::Finished || entry.1.state == TransitionState::Canceled) {
                self.transitions.push(entry);
            }
            proof {
                t = t + 1;
            }
            assert(rest@ =~= ts0.skip(t));
        }
        assert(ts0.take(t) =~= ts0);

        let ghost keep_g = |g: (String, Vec<(usize, Animation)>)| group_uncanceled(g);
        let ghost gs0 = self.animations@;
        let mut groups: Vec<(String, Vec<(usize, Animation)>)> = Vec::new();
        std::mem::swap(&mut groups, &mut self.animations);
        let ghost mut g: int = 0;
        assert(gs0.take(0).filter(keep_g) =~= Seq::<(String, Vec<(usize, Animation)>)>::empty());
        while groups.len() > 0
            invariant
                0 <= g <= gs0.len(),
                groups@ == gs0.skip(g),
                self.animations@ == gs0.take(g).filter(keep_g),
                keep_g == (|g: (String, Vec<(usize, Animation)>)| group_uncanceled(g)),
                self.transitions@ == ts0.filter(keep_t),
                self.pending_transition_events@ == old(self).pending_transition_events@,
                self.pending_animation_events@ == old(self).pending_animation_events@,
                self.transitions_options@ == old(self).transitions_options@,
            decreases groups.len(),
        {
            assert(groups@[0] == gs0[g]);
            assert(gs0.take(g + 1) =~= gs0.take(g).push(gs0[g]));
            proof {
                gs0.take(g).lemma_filter_push(gs0[g], keep_g);
            }
            let entry = groups.remove(0);
            let mut uncanceled = true;
            let mut i: usize = 0;
            while i < entry.1.len()
                invariant
                    i <= entry.1@.len(),
                    uncanceled == forall|k: int| 0 <= k < i ==> (#[trigger] entry.1@[k]).1.state != AnimationState::Canceled,
                decreases entry.1.len() - i,
            {
                if entry.1[i].1.state == AnimationState::Canceled {
                    uncanceled = false;
                }
                i = i + 1;
            }
            if uncanceled {
                self.animations.push(entry);
            }
            proof {
                g = g + 1;
            }
            assert(groups@ =~= gs0.skip(g));
        }
        assert(gs0.take(g) =~= gs0);
    }

    /// Whether some transition or animation emits a value.
    pub fn has_active_animations_or_transitions(&self) -> (r: bool)
        ensures
            r == ((exists|i: int| 0 <= i < self.transitions@.len() && #[trigger] self.transitions@[i].1.tickable())
                || (exists|g: int, i: int| 0 <= g < self.animations@.len() && 0 <= i < self.animations@[g].1@.len()
                    && (#[trigger] self.animations@[g].1@[i]).1@.active())),
    {
        let mut i: usize = 0;
        while i < self.transitions.len()
            invariant
                i <= self.transitions@.len(),
                forall|k: int| 0 <= k < i ==> !(#[trigger] self.transitions@[k].1.tickable()),
            decreases self.transitions.len() - i,
        {
            if self.transitions[i].1.is_active() {
                return true;
            }
            i = i + 1;
        }
        let mut g: usize = 0;
        while g < self.animations.len()
            invariant
                g <= self.animations@.len(),
                forall|k: int| 0 <= k < self.transitions@.len() ==> !(#[trigger] self.transitions@[k].1.tickable()),
                forall|h: int, k: int| 0 <= h < g && 0 <= k < self.animations@[h].1@.len()
                    ==> !(#[trigger] self.animations@[h].1@[k]).1@.active(),
            decreases self.animations.len() - g,
        {
            let group = &self.animations[g].1;
            assert(group@ == self.animations@[g as int].1@);
            let mut k: usize = 0;
            while k < group.len()
                invariant
                    g < self.animations@.len(),
                    k <= group@.len(),
                    group@ == self.animations@[g as int].1@,
                    forall|q: int| 0 <= q < k ==> !(#[trigger] group@[q]).1@.active(),
                decreases group.len() - k,
            {
                if group[k].1.is_active() {
                    assert(self.animations@[g as int].1@[k as int].1@.active());
                    return true;
                }
                k = k + 1;
            }
            g = g + 1;
        }
        false
    }

    /// Cancels the transitions of properties that no longer have transition
    /// options (unless over or already canceled), noting the events, and
    /// keeps the new options.
    pub fn set_transition_options(&mut self, new_options: Vec<(usize, TransitionOptions<E>)>)
        ensures
            final(self).transitions_options@ == new_options@,
            final(self).transitions@.len() == old(self).transitions@.len(),
            forall|i: int| 0 <= i < old(self).transitions@.len() ==> {
                let (p, t) = old(self).transitions@[i];
                &&& (#[trigger] final(self).transitions@[i]).0 == p
                &&& final(self).transitions@[i].1 == if dropped_property(old(self).transitions_options@, new_options@, p)
                    && !transition_ended(old(self).transitions@[i]) {
                    Transition { state: TransitionState::Canceled, ..t }
                } else {
                    t
                }
            },
            final(self).animations@ == old(self).animations@,
            final(self).pending_animation_events@ == old(self).pending_animation_events@,
            final(self).pending_transition_events@.len() >= old(self).pending_transition_events@.len(),
            forall|k: int| old(self).pending_transition_events@.len() <= k < final(self).pending_transition_events@.len()
                ==> (#[trigger] final(self).pending_transition_events@[k]).event_type == TransitionEventType::Canceled
                    && dropped_property(old(self).transitions_options@, new_options@, final(self).pending_transition_events@[k].property_id),
            final(self).pending_transition_events@.take(old(self).pending_transition_events@.len() as int)
                == old(self).pending_transition_events@,
            final(self).pending_transition_events@ == old(self).pending_transition_events@ + dropped_events(
                old(self).transitions@, old(self).transitions_options@, new_options@, old(self).transitions_options@.len() as int),
    {
        broadcast use vstd::seq::Seq::lemma_filter_push;
        let mut j: usize = 0;
        while j < self.transitions_options.len()
            invariant
                j <= old(self).transitions_options@.len(),
                self.transitions_options@ == old(self).transitions_options@,
                self.transitions@.len() == old(self).transitions@.len(),
                forall|i: int| 0 <= i < old(self).transitions@.len() ==> {
                    let (p, t) = old(self).transitions@[i];
                    &&& (#[trigger] self.transitions@[i]).0 == p
                    &&& self.transitions@[i].1 == if dropped_upto(old(self).transitions_options@, new_options@, p, j as int)
                        && !transition_ended(old(self).transitions@[i]) {
                        Transition { state: TransitionState::Canceled, ..t }
                    } else {
                        t
                    }
                },
                self.animations@ == old(self).animations@,
                self.pending_animation_events@ == old(self).pending_animation_events@,
                self.pending_transition_events@.len() >= old(self).pending_transition_events@.len(),
                forall|k: int| old(self).pending_transition_events@.len() <= k < self.pending_transition_events@.len()
                    ==> (#[trigger] self.pending_transition_events@[k]).event_type == TransitionEventType::Canceled
                        && dropped_upto(old(self).transitions_options@, new_options@, self.pending_transition_events@[k].property_id, j as int),
                self.pending_transition_events@.take(old(self).pending_transition_events@.len() as int)
                    == old(self).pending_transition_events@,
                self.pending_transition_events@ == old(self).pending_transition_events@ + dropped_events(
                    old(self).transitions@, old(self).transitions_options@, new_options@, j as int),
            decreases self.transitions_options.len() - j,
        {
            let property_id = self.transitions_options[j].0;
            let ghost ev_j = self.pending_transition_events@;
            assert(self.transitions@ =~= canceled_upto(old(self).transitions@, old(self).transitions_options@, new_options@, j as int));
            let mut kept = false;
            let mut q: usize = 0;
            while q < new_options.len()
                invariant
                    q <= new_options@.len(),
                    kept == exists|r: int| 0 <= r < q && (#[trigger] new_options@[r]).0 == property_id,
                decreases new_options.len() - q,
            {
                if new_options[q].0 == property_id {
                    kept = true;
                }
                q = q + 1;
            }
            assert forall|k: int| old(self).pending_transition_events@.len() <= k < self.pending_transition_events@.len()
                implies dropped_upto(old(self).transitions_options@, new_options@, #[trigger] self.pending_transition_events@[k].property_id, j + 1) by {
                let pid = self.pending_transition_events@[k].property_id;
                let w = choose|i: int| 0 <= i < j && (#[trigger] old(self).transitions_options@[i]).0 == pid;
                assert(old(self).transitions_options@[w].0 == pid);
            }
            if !kept {
                let mut rest: Vec<(usize, Transition)> = Vec::new();
                std::mem::swap(&mut rest, &mut self.transitions);
                let ghost ts = rest@;
                let ghost mut t: int = 0;
                let ghost keep = cancels(property_id);
                assert(ts.take(0).filter(keep) =~= Seq::<(usize, Transition)>::empty());
                while rest.len() > 0
                    invariant
                        keep == cancels(property_id),
                        self.pending_transition_events@ == ev_j + cancel_events_for(ts.take(t), property_id),
                        0 <= t <= ts.len(),
                        rest@ == ts.skip(t),
                        self.transitions@.len() == t,
                        forall|i: int| 0 <= i < t ==> {
                            &&& (#[trigger] self.transitions@[i]).0 == ts[i].0
                            &&& self.transitions@[i].1 == if ts[i].0 == property_id && !transition_ended(ts[i]) {
                                Transition { state: TransitionState::Canceled, ..ts[i].1 }
                            } else {
                                ts[i].1
                            }
                        },
                        self.transitions_options@ == old(self).transitions_options@,
                        self.animations@ == old(self).animations@,
                        self.pending_animation_events@ == old(self).pending_animation_events@,
                        self.pending_transition_events@.len() >= old(self).pending_transition_events@.len(),
                        forall|k: int| old(self).pending_transition_events@.len() <= k < self.pending_transition_events@.len()
                            ==> (#[trigger] self.pending_transition_events@[k]).event_type == TransitionEventType::Canceled
                                && dropped_upto(old(self).transitions_options@, new_options@, self.pending_transition_events@[k].property_id, j + 1),
                        j < old(self).transitions_options@.len(),
                        property_id == old(self).transitions_options@[j as int].0,
                        !exists|r: int| 0 <= r < new_options@.len() && (#[trigger] new_options@[r]).0 == property_id,
                        self.pending_transition_events@.take(old(self).pending_transition_events@.len() as int)
                            == old(self).pending_transition_events@,
                    decreases rest.len(),
                {
                    assert(rest@[0] == ts[t]);
                    assert(ts.take(t + 1) =~= ts.take(t).push(ts[t]));
                    proof {
                        ts.take(t).lemma_filter_push(ts[t], keep);
                    }
                    let ghost events_t = self.pending_transition_events@;
                    let (p, mut transition) = rest.remove(0);
                    if p == property_id && !(transition.state == TransitionState::Canceled
                        || transition.state == TransitionState::Finished) {
                        transition.state = TransitionState::Canceled;
                        let ghost before = self.pending_transition_events@;
                        self.pending_transition_events.push(TransitionEvent { event_type: TransitionEventType::Canceled, property_id: p });
                        assert(self.pending_transition_events@.take(old(self).pending_transition_events@.len() as int)
                            =~= before.take(old(self).pending_transition_events@.len() as int));
                        assert(ts.take(t + 1).filter(keep) == ts.take(t).filter(keep).push(ts[t]));
                        assert(cancel_events_for(ts.take(t + 1), property_id) =~= cancel_events_for(ts.take(t), property_id).push(
                            TransitionEvent { event_type: TransitionEventType::Canceled, property_id: p }));
                        assert(self.pending_transition_events@ =~= ev_j + cancel_events_for(ts.take(t + 1), property_id));
                    } else {
                        assert(ts.take(t + 1).filter(keep) == ts.take(t).filter(keep));
                        assert(cancel_events_for(ts.take(t + 1), property_id) =~= cancel_events_for(ts.take(t), property_id));
                    }
                    self.transitions.push((p, transition));
                    proof {
                        t = t + 1;
                    }
                    assert(rest@ =~= ts.skip(t));
                }
                assert(ts.take(t) =~= ts);
            }
            assert(old(self).transitions_options@[j as int].0 == property_id);
            assert(self.pending_transition_events@ =~= old(self).pending_transition_events@ + dropped_events(
                old(self).transitions@, old(self).transitions_options@, new_options@, j + 1));
            j = j + 1;
        }
        self.transitions_options = new_options;
    }
}

/// Whether `p` is among the first `j` properties of `old_options` and has no new options.
pub open spec fn dropped_upto<E>(old_options: Seq<(usize, TransitionOptions<E>)>, new_options: Seq<(usize, TransitionOptions<E>)>, p: usize, j: int) -> bool {
    &&& exists|i: int| 0 <= i < j && (#[trigger] old_options[i]).0 == p
    &&& !exists|r: int| 0 <= r < new_options.len() && (#[trigger] new_options[r]).0 == p
}

/// The transitions once those of the first `j` properties of `old_options`
/// without new options are canceled (unless over or already canceled).
pub open spec fn canceled_upto<E>(
    ts: Seq<(usize, Transition)>,
    old_options: Seq<(usize, TransitionOptions<E>)>,
    new_options: Seq<(usize, TransitionOptions<E>)>,
    j: int,
) -> Seq<(usize, Transition)> {
    Seq::new(ts.len(), |i: int| (ts[i].0, if dropped_upto(old_options, new_options, ts[i].0, j) && !transition_ended(ts[i]) {
        Transition { state: TransitionState::Canceled, ..ts[i].1 }
    } else {
        ts[i].1
    }))
}

/// Whether a transition is one of `p` that canceling changes.
pub open spec fn cancels(p: usize) -> spec_fn((usize, Transition)) -> bool {
    |e: (usize, Transition)| e.0 == p && !transition_ended(e)
}

/// The events of canceling the transitions of `p`, in order.
pub open spec fn cancel_events_for(ts: Seq<(usize, Transition)>, p: usize) -> Seq<TransitionEvent> {
    ts.filter(cancels(p)).map_values(
        |e: (usize, Transition)| TransitionEvent { event_type: TransitionEventType::Canceled, property_id: e.0 })
}

/// The events of canceling, one option after another, the transitions of
/// the first `j` properties of `old_options` that have no new options.
pub open spec fn dropped_events<E>(
    ts: Seq<(usize, Transition)>,
    old_options: Seq<(usize, TransitionOptions<E>)>,
    new_options: Seq<(usize, TransitionOptions<E>)>,
    j: int,
) -> Seq<TransitionEvent>
    decreases j,
{
    if j <= 0 {
        Seq::empty()
    } else {
        let p = old_options[j - 1].0;
        dropped_events(ts, old_options, new_options, j - 1) + if !exists|r: int| 0 <= r < new_options.len() && (#[trigger] new_options[r]).0 == p {
            cancel_events_for(canceled_upto(ts, old_options, new_options, j - 1), p)
        } else {
            Seq::empty()
        }
    }
}

/// Whether `p` had transition options and has none now.
pub open spec fn dropped_property<E>(old_options: Seq<(usize, TransitionOptions<E>)>, new_options: Seq<(usize, TransitionOptions<E>)>, p: usize) -> bool {
    dropped_upto(old_options, new_options, p, old_options.len() as int)
}


/// An animation seen by its property, its state and its name.
pub open spec fn animation_model(e: (usize, Animation)) -> (usize, AnimationView, Seq<char>) {
    (e.0, e.1@, e.1.name@)
}

/// A group of animations seen by properties, states and names.
pub open spec fn group_model(g: Seq<(usize, Animation)>) -> Seq<(usize, AnimationView, Seq<char>)> {
    Seq::new(g.len(), |i: int| animation_model(g[i]))
}

/// All animation groups seen by name and members.
pub open spec fn groups_model(gs: Seq<(String, Vec<(usize, Animation)>)>) -> Seq<(Seq<char>, Seq<(usize, AnimationView, Seq<char>)>)> {
    Seq::new(gs.len(), |i: int| (gs[i].0@, group_model(gs[i].1@)))
}

/// Whether a configuration names the animation `n`.
pub open spec fn named_in<E>(cs: Seq<AnimationConfiguration<E>>, n: Seq<char>) -> bool {
    exists|i: int| 0 <= i < cs.len() && (#[trigger] cs[i]).name@ == n
}

/// The group of members, all canceled.
pub open spec fn canceled_members(g: Seq<(usize, AnimationView, Seq<char>)>) -> Seq<(usize, AnimationView, Seq<char>)> {
    Seq::new(g.len(), |i: int| (g[i].0, AnimationView { state: AnimationState::Canceled, ..g[i].1 }, g[i].2))
}

/// The groups once the animations no configuration names are canceled.
pub open spec fn cancel_absent<E>(
    model: Seq<(Seq<char>, Seq<(usize, AnimationView, Seq<char>)>)>,
    cs: Seq<AnimationConfiguration<E>>,
) -> Seq<(Seq<char>, Seq<(usize, AnimationView, Seq<char>)>)> {
    Seq::new(model.len(), |i: int| if named_in(cs, model[i].0) { model[i] } else { (model[i].0, canceled_members(model[i].1)) })
}

/// The events of canceling the animations no configuration names, in order.
pub open spec fn cancel_events<E>(
    model: Seq<(Seq<char>, Seq<(usize, AnimationView, Seq<char>)>)>,
    cs: Seq<AnimationConfiguration<E>>,
) -> Seq<(AnimationEventType, Seq<char>, usize)>
    decreases model.len(),
{
    if model.len() == 0 {
        Seq::empty()
    } else {
        let g = model.last();
        cancel_events(model.drop_last(), cs) + if named_in(cs, g.0) {
            Seq::empty()
        } else {
            Seq::new(g.1.len(), |k: int| (AnimationEventType::Canceled, g.1[k].2, g.1[k].0))
        }
    }
}

/// Index of the first group named `n`, or the number of groups.
pub open spec fn group_index(model: Seq<(Seq<char>, Seq<(usize, AnimationView, Seq<char>)>)>, n: Seq<char>) -> int
    decreases model.len(),
{
    if model.len() == 0 {
        0
    } else if group_index(model.drop_last(), n) < model.len() - 1 {
        group_index(model.drop_last(), n)
    } else if model.last().0 == n {
        model.len() - 1
    } else {
        model.len() as int
    }
}

/// Whether every member of a group is canceled (an empty group is).
pub open spec fn all_canceled(g: Seq<(usize, AnimationView, Seq<char>)>) -> bool {
    forall|k: int| 0 <= k < g.len() ==> (#[trigger] g[k]).1.state == AnimationState::Canceled
}

/// A new animation of `options`, named `name`.
pub open spec fn new_member(p: usize, options: AnimationOptions, name: Seq<char>) -> (usize, AnimationView, Seq<char>) {
    (p, AnimationView { paused: options.play_state == AnimationPlayState::Paused, ..fresh_view(options) }, name)
}

/// An animation updated to `options`.
pub open spec fn updated_member(m: (usize, AnimationView, Seq<char>), options: AnimationOptions) -> (usize, AnimationView, Seq<char>) {
    (m.0, AnimationView {
        paused: options.play_state == AnimationPlayState::Paused,
        ..replayed(options, m.1.total_elapsed(), m.1.state == AnimationState::Finished)
    }, m.2)
}

/// The groups after applying a configuration: its group (added when missing)
/// is emptied when every animation in it is canceled; an empty group gets
/// one new animation per property the keyframes animate, if they resolved;
/// otherwise every animation of the group takes the new options.
pub open spec fn apply_config(
    model: Seq<(Seq<char>, Seq<(usize, AnimationView, Seq<char>)>)>,
    name: Seq<char>,
    options: AnimationOptions,
    resolved: Option<Seq<usize>>,
) -> Seq<(Seq<char>, Seq<(usize, AnimationView, Seq<char>)>)> {
    let idx = group_index(model, name);
    let m1 = if idx == model.len() { model.push((name, Seq::empty())) } else { model };
    let g = m1[idx].1;
    let g1 = if all_canceled(g) { Seq::empty() } else { g };
    let g2 = if g1.len() == 0 {
        match resolved {
            Some(ps) => Seq::new(ps.len(), |k: int| new_member(ps[k], options, name)),
            None => Seq::empty(),
        }
    } else {
        Seq::new(g1.len(), |k: int| updated_member(g1[k], options))
    };
    m1.update(idx, (m1[idx].0, g2))
}

/// The groups after applying the configurations in order.
pub open spec fn apply_configs<E>(
    model: Seq<(Seq<char>, Seq<(usize, AnimationView, Seq<char>)>)>,
    cs: Seq<AnimationConfiguration<E>>,
    rs: Seq<Option<Vec<usize>>>,
) -> Seq<(Seq<char>, Seq<(usize, AnimationView, Seq<char>)>)>
    decreases cs.len(),
{
    if cs.len() == 0 || rs.len() == 0 {
        model
    } else {
        let resolved = match rs.last() {
            Some(v) => Some(v@),
            None => None,
        };
        apply_config(apply_configs(model, cs.drop_last(), rs.drop_last()), cs.last().name@, cs.last().options, resolved)
    }
}


/// The events seen by type, name and property.
pub open spec fn events_model(evs: Seq<AnimationEvent>) -> Seq<(AnimationEventType, Seq<char>, usize)> {
    Seq::new(evs.len(), |i: int| (evs[i].event_type, evs[i].name@, evs[i].property_id))
}

/// Every animation is well-formed and its elapsed time is representable.
pub open spec fn animations_ready(gs: Seq<(String, Vec<(usize, Animation)>)>) -> bool {
    forall|g: int, i: int| 0 <= g < gs.len() && 0 <= i < gs[g].1@.len() ==> {
        &&& (#[trigger] gs[g].1@[i]).1@.wf()
        &&& gs[g].1@[i].1@.total_elapsed() <= MAX_DURATION_NANOS
    }
}

/// Options an animation can be created or updated with: a representable
/// first iteration, and no infinite run of zero duration, which never ends
/// an iteration.
pub open spec fn playable(options: AnimationOptions) -> bool {
    options.valid() && !(options.iteration_count == IterationCount::Infinite && options.duration == 0)
}

/// The first group named `n` is found by looking at the groups in order.
pub proof fn lemma_group_index(model: Seq<(Seq<char>, Seq<(usize, AnimationView, Seq<char>)>)>, n: Seq<char>, j: int)
    requires
        0 <= j <= model.len(),
        forall|k: int| 0 <= k < j ==> (#[trigger] model[k]).0 != n,
        j < model.len() ==> model[j].0 == n,
    ensures
        group_index(model, n) == j,
    decreases model.len(),
{
    if model.len() > 0 {
        let t = model.drop_last();
        if j < model.len() - 1 {
            lemma_group_index(t, n, j);
        } else {
            lemma_group_index(t, n, t.len() as int);
        }
    }
}

/// Options that are playable can always be replayed.
pub proof fn lemma_playable_replays(options: AnimationOptions, t: int)
    requires
        playable(options),
    ensures
        can_replay(options, t),
{
}


/// Seeing a group list with one more group.
pub proof fn lemma_groups_model_push(gs: Seq<(String, Vec<(usize, Animation)>)>, e: (String, Vec<(usize, Animation)>))
    ensures
        groups_model(gs.push(e)) == groups_model(gs).push((e.0@, group_model(e.1@))),
{
    assert(groups_model(gs.push(e)) =~= groups_model(gs).push((e.0@, group_model(e.1@))));
}

/// Canceling the absent animations of one more group.
pub proof fn lemma_cancel_absent_push<E>(
    m: Seq<(Seq<char>, Seq<(usize, AnimationView, Seq<char>)>)>,
    e: (Seq<char>, Seq<(usize, AnimationView, Seq<char>)>),
    cs: Seq<AnimationConfiguration<E>>,
)
    ensures
        cancel_absent(m.push(e), cs) == cancel_absent(m, cs).push(
            if named_in(cs, e.0) { e } else { (e.0, canceled_members(e.1)) }),
{
    assert(cancel_absent(m.push(e), cs) =~= cancel_absent(m, cs).push(
        if named_in(cs, e.0) { e } else { (e.0, canceled_members(e.1)) }));
}


/// Setting configurations that name every group of animations cancels
/// nothing and raises no event.
pub proof fn lemma_named_groups_are_kept<E>(
    model: Seq<(Seq<char>, Seq<(usize, AnimationView, Seq<char>)>)>,
    cs: Seq<AnimationConfiguration<E>>,
)
    requires
        forall|i: int| 0 <= i < model.len() ==> named_in(cs, (#[trigger] model[i]).0),
    ensures
        cancel_absent(model, cs) == model,
        cancel_events(model, cs).len() == 0,
    decreases model.len(),
{
    assert(cancel_absent(model, cs) =~= model);
    if model.len() > 0 {
        let t = model.drop_last();
        assert forall|i: int| 0 <= i < t.len() implies named_in(cs, (#[trigger] t[i]).0) by {
            assert(t[i] == model[i]);
        }
        lemma_named_groups_are_kept(t, cs);
        assert(named_in(cs, model[model.len() - 1].0));
    }
}

/// One more group of ready animations keeps every animation ready.
pub proof fn lemma_ready_push(gs: Seq<(String, Vec<(usize, Animation)>)>, e: (String, Vec<(usize, Animation)>))
    requires
        animations_ready(gs),
        forall|i: int| 0 <= i < e.1@.len() ==> {
            &&& (#[trigger] e.1@[i]).1@.wf()
            &&& e.1@[i].1@.total_elapsed() <= MAX_DURATION_NANOS
        },
    ensures
        animations_ready(gs.push(e)),
{
    assert forall|g: int, i: int| 0 <= g < gs.push(e).len() && 0 <= i < gs.push(e)[g].1@.len() implies {
        &&& (#[trigger] gs.push(e)[g].1@[i]).1@.wf()
        &&& gs.push(e)[g].1@[i].1@.total_elapsed() <= MAX_DURATION_NANOS
    } by {
        if g < gs.len() {
            assert(gs.push(e)[g] == gs[g]);
        } else {
            assert(gs.push(e)[g] == e);
        }
    }
}

/// Taking a group out keeps every remaining animation ready.
pub proof fn lemma_ready_remove(gs: Seq<(String, Vec<(usize, Animation)>)>, idx: int)
    requires
        animations_ready(gs),
        0 <= idx < gs.len(),
    ensures
        animations_ready(gs.remove(idx)),
{
    assert forall|g: int, i: int| 0 <= g < gs.remove(idx).len() && 0 <= i < gs.remove(idx)[g].1@.len() implies {
        &&& (#[trigger] gs.remove(idx)[g].1@[i]).1@.wf()
        &&& gs.remove(idx)[g].1@[i].1@.total_elapsed() <= MAX_DURATION_NANOS
    } by {
        if g < idx {
            assert(gs.remove(idx)[g] == gs[g]);
        } else {
            assert(gs.remove(idx)[g] == gs[g + 1]);
        }
    }
}

/// Putting back a group of ready animations keeps every animation ready.
pub proof fn lemma_ready_insert(gs: Seq<(String, Vec<(usize, Animation)>)>, idx: int, e: (String, Vec<(usize, Animation)>))
    requires
        animations_ready(gs),
        0 <= idx <= gs.len(),
        forall|i: int| 0 <= i < e.1@.len() ==> {
            &&& (#[trigger] e.1@[i]).1@.wf()
            &&& e.1@[i].1@.total_elapsed() <= MAX_DURATION_NANOS
        },
    ensures
        animations_ready(gs.insert(idx, e)),
{
    assert forall|g: int, i: int| 0 <= g < gs.insert(idx, e).len() && 0 <= i < gs.insert(idx, e)[g].1@.len() implies {
        &&& (#[trigger] gs.insert(idx, e)[g].1@[i]).1@.wf()
        &&& gs.insert(idx, e)[g].1@[i].1@.total_elapsed() <= MAX_DURATION_NANOS
    } by {
        if g < idx {
            assert(gs.insert(idx, e)[g] == gs[g]);
        } else if g == idx {
            assert(gs.insert(idx, e)[g] == e);
        } else {
            assert(gs.insert(idx, e)[g] == gs[g - 1]);
        }
    }
}

impl<E: Clone> StyleAnimations<E> {
    /// Sets the animations from new configurations. Animations no
    /// configuration names are canceled, with an event each. Then, for each
    /// configuration in turn: a group whose animations are all canceled is
    /// emptied; an empty group gets a new animation for each property its
    /// keyframes animate (`resolved_properties` gives them, `None` when the
    /// keyframes could not be resolved); a group with live animations has
    /// them take the new options, without restarting.
    pub fn set_animations(
        &mut self,
        new_animation_configs: Vec<AnimationConfiguration<E>>,
        resolved_properties: Vec<Option<Vec<usize>>>,
    )
        requires
            resolved_properties@.len() == new_animation_configs@.len(),
            forall|i: int| 0 <= i < new_animation_configs@.len() ==> playable(#[trigger] new_animation_configs@[i].options),
            animations_ready(old(self).animations@),
        ensures
            groups_model(final(self).animations@) == apply_configs(
                cancel_absent(groups_model(old(self).animations@), new_animation_configs@),
                new_animation_configs@,
                resolved_properties@,
            ),
            events_model(final(self).pending_animation_events@) == events_model(old(self).pending_animation_events@)
                + cancel_events(groups_model(old(self).animations@), new_animation_configs@),
            animations_ready(final(self).animations@),
            final(self).current_animation_configs@ == new_animation_configs@,
            final(self).transitions@ == old(self).transitions@,
            final(self).pending_transition_events@ == old(self).pending_transition_events@,
            final(self).transitions_options@ == old(self).transitions_options@,
    {
        let ghost cs = new_animation_configs@;
        let ghost rs = resolved_properties@;
        let ghost m0 = groups_model(self.animations@);
        let ghost ev0 = events_model(self.pending_animation_events@);
        let mut groups: Vec<(String, Vec<(usize, Animation)>)> = Vec::new();
        std::mem::swap(&mut groups, &mut self.animations);
        let ghost gs0 = groups@;
        let ghost mut g: int = 0;
        while groups.len() > 0
            invariant
                0 <= g <= gs0.len(),
                groups@ == gs0.skip(g),
                m0 == groups_model(gs0),
                animations_ready(gs0),
                cs == new_animation_configs@,
                groups_model(self.animations@) == cancel_absent(m0.take(g), cs),
                animations_ready(self.animations@),
                events_model(self.pending_animation_events@) == ev0 + cancel_events(m0.take(g), cs),
                self.transitions@ == old(self).transitions@,
                self.pending_transition_events@ == old(self).pending_transition_events@,
                self.transitions_options@ == old(self).transitions_options@,
            decreases groups.len(),
        {
            assert(groups@[0] == gs0[g]);
            assert(m0.take(g + 1).drop_last() =~= m0.take(g));
            let ghost entry = groups@[0];
            let (name, group) = groups.remove(0);
            assert(name == entry.0 && group == entry.1);
            assert(entry == gs0[g]);
            assert forall|q: int| 0 <= q < group@.len() implies {
                &&& (#[trigger] group@[q]).1@.wf()
                &&& group@[q].1@.total_elapsed() <= MAX_DURATION_NANOS
            } by {
                assert(gs0[g].1@[q] == group@[q]);
            }
            let mut named = false;
            let mut c: usize = 0;
            while c < new_animation_configs.len()
                invariant
                    c <= cs.len(),
                    cs == new_animation_configs@,
                    named == exists|k: int| 0 <= k < c && (#[trigger] cs[k]).name@ == name@,
                decreases new_animation_configs.len() - c,
            {
                if str_equal(new_animation_configs[c].name.as_str(), name.as_str()) {
                    named = true;
                }
                c = c + 1;
            }
            let ghost before_events = self.pending_animation_events@;
            let ghost gm = group_model(group@);
            assert(m0[g] == (gs0[g].0@, group_model(gs0[g].1@)));
            assert(m0.take(g + 1) =~= m0.take(g).push(m0[g]));
            proof {
                lemma_cancel_absent_push(m0.take(g), m0[g], cs);
                lemma_groups_model_push(self.animations@, (name, group));
                assert(named == named_in(cs, m0[g].0));
            }
            let ghost prev_anims = self.animations@;
            if named {
                proof {
                    lemma_ready_push(prev_anims, (name, group));
                }
                self.animations.push((name, group));
                assert(named_in(cs, m0[g].0));
                assert(events_model(self.pending_animation_events@) =~= ev0 + cancel_events(m0.take(g + 1), cs));
            } else {
                let ghost members0 = group@;
                let mut members = group;
                let mut canceled: Vec<(usize, Animation)> = Vec::new();
                let ghost mut k: int = 0;
                while members.len() > 0
                    invariant
                        self.animations@ == prev_anims,
                        self.transitions@ == old(self).transitions@,
                        self.pending_transition_events@ == old(self).pending_transition_events@,
                        self.transitions_options@ == old(self).transitions_options@,
                        0 <= k <= members0.len(),
                        members@ == members0.skip(k),
                        gm == group_model(members0),
                        members0 == gs0[g].1@,
                        0 <= g < gs0.len(),
                        animations_ready(gs0),
                        canceled@.len() == k,
                        forall|q: int| 0 <= q < k ==> {
                            &&& (#[trigger] canceled@[q]).0 == gm[q].0
                            &&& canceled@[q].1@ == (AnimationView { state: AnimationState::Canceled, ..gm[q].1 })
                            &&& canceled@[q].1.name@ == gm[q].2
                            &&& canceled@[q].1@.wf()
                            &&& canceled@[q].1@.total_elapsed() <= MAX_DURATION_NANOS
                        },
                        self.pending_animation_events@.len() == before_events.len() + k,
                        forall|q: int| 0 <= q < before_events.len() ==>
                            #[trigger] self.pending_animation_events@[q] == before_events[q],
                        forall|q: int| 0 <= q < k ==> {
                            let e = #[trigger] self.pending_animation_events@[before_events.len() + q];
                            &&& e.event_type == AnimationEventType::Canceled
                            &&& e.name@ == gm[q].2
                            &&& e.property_id == gm[q].0
                        },
                    decreases members.len(),
                {
                    assert(members@[0] == members0[k]);
                    assert(gs0[g].1@[k] == members0[k]);
                    assert(gm[k] == animation_model(members0[k]));
                    let (property_id, mut animation) = members.remove(0);
                    animation.cancel();
                    self.pending_animation_events.push(AnimationEvent {
                        event_type: AnimationEventType::Canceled,
                        name: animation.name.clone(),
                        property_id,
                    });
                    canceled.push((property_id, animation));
                    proof {
                        k = k + 1;
                    }
                    assert(members@ =~= members0.skip(k));
                }
                assert(group_model(canceled@) =~= canceled_members(gm));
                assert forall|q: int| 0 <= q < self.pending_animation_events@.len() implies
                    #[trigger] events_model(self.pending_animation_events@)[q] == (events_model(before_events)
                    + Seq::new(gm.len(), |q: int| (AnimationEventType::Canceled, gm[q].2, gm[q].0)))[q] by {
                    if q >= before_events.len() {
                        let r = q - before_events.len();
                        assert(self.pending_animation_events@[before_events.len() + r] == self.pending_animation_events@[q]);
                    }
                }
                assert(events_model(self.pending_animation_events@) =~= events_model(before_events)
                    + Seq::new(gm.len(), |q: int| (AnimationEventType::Canceled, gm[q].2, gm[q].0)));
                assert forall|q: int| 0 <= q < canceled@.len() implies {
                    &&& (#[trigger] canceled@[q]).1@.wf()
                    &&& canceled@[q].1@.total_elapsed() <= MAX_DURATION_NANOS
                } by {}
                proof {
                    lemma_groups_model_push(self.animations@, (name, canceled));
                    lemma_ready_push(prev_anims, (name, canceled));
                    assert(gm == m0[g].1);
                }
                self.animations.push((name, canceled));
                assert(events_model(self.pending_animation_events@) =~= ev0 + cancel_events(m0.take(g + 1), cs));
            }
            proof {
                g = g + 1;
            }
            assert(groups@ =~= gs0.skip(g));
            assert(groups_model(self.animations@) == cancel_absent(m0.take(g), cs));
        }
        assert(m0.take(g) =~= m0);

        let ghost m1 = groups_model(self.animations@);
        let mut i: usize = 0;
        while i < new_animation_configs.len()
            invariant
                i <= cs.len(),
                cs == new_animation_configs@,
                rs == resolved_properties@,
                rs.len() == cs.len(),
                forall|q: int| 0 <= q < cs.len() ==> playable(#[trigger] cs[q].options),
                groups_model(self.animations@) == apply_configs(m1, cs.take(i as int), rs.take(i as int)),
                animations_ready(self.animations@),
                events_model(self.pending_animation_events@) == ev0 + cancel_events(m0, cs),
                self.transitions@ == old(self).transitions@,
                self.pending_transition_events@ == old(self).pending_transition_events@,
                self.transitions_options@ == old(self).transitions_options@,
            decreases new_animation_configs.len() - i,
        {
            assert(cs.take(i + 1).drop_last() =~= cs.take(i as int));
            assert(rs.take(i + 1).drop_last() =~= rs.take(i as int));
            let config = &new_animation_configs[i];
            assert(playable(config.options));
            let ghost model = groups_model(self.animations@);
            let mut idx: usize = 0;
            while idx < self.animations.len() && !str_equal(self.animations[idx].0.as_str(), config.name.as_str())
                invariant
                    idx <= self.animations@.len(),
                    model == groups_model(self.animations@),
                    forall|k: int| 0 <= k < idx ==> (#[trigger] model[k]).0 != config.name@,
                decreases self.animations.len() - idx,
            {
                idx = idx + 1;
            }
            proof {
                lemma_group_index(model, config.name@, idx as int);
            }
            if idx == self.animations.len() {
                let new_group: (String, Vec<(usize, Animation)>) = (config.name.clone(), Vec::new());
                proof {
                    lemma_groups_model_push(self.animations@, new_group);
                    assert(group_model(new_group.1@) =~= Seq::<(usize, AnimationView, Seq<char>)>::empty());
                }
                self.animations.push(new_group);
            }
            let ghost m_1 = groups_model(self.animations@);
            let ghost anims_1 = self.animations@;
            let (group_name, mut group) = self.animations.remove(idx);
            proof {
                lemma_ready_remove(anims_1, idx as int);
            }
            let ghost gm = group_model(group@);
            assert(gm == m_1[idx as int].1);
            let mut all_canceled_now = true;
            let mut k: usize = 0;
            while k < group.len()
                invariant
                    k <= group@.len(),
                    gm == group_model(group@),
                    all_canceled_now == forall|q: int| 0 <= q < k ==> (#[trigger] gm[q]).1.state == AnimationState::Canceled,
                decreases group.len() - k,
            {
                assert(gm[k as int] == animation_model(group@[k as int]));
                if group[k].1.state != AnimationState::Canceled {
                    all_canceled_now = false;
                }
                k = k + 1;
            }
            if all_canceled_now {
                group = Vec::new();
            }
            let ghost g1 = if all_canceled(gm) { Seq::<(usize, AnimationView, Seq<char>)>::empty() } else { gm };
            assert(group_model(group@) =~= g1);
            if group.len() == 0 {
                match &resolved_properties[i] {
                    Some(properties) => {
                        let mut q: usize = 0;
                        while q < properties.len()
                            invariant
                                q <= properties@.len(),
                                group@.len() == q,
                                playable(config.options),
                                forall|j: int| 0 <= j < q ==> {
                                    &&& (#[trigger] group@[j]).0 == properties@[j]
                                    &&& group@[j].1@ == (AnimationView {
                                        paused: config.options.play_state == AnimationPlayState::Paused,
                                        ..fresh_view(config.options)
                                    })
                                    &&& group@[j].1.name@ == config.name@
                                    &&& group@[j].1@.wf()
                                    &&& group@[j].1@.total_elapsed() <= MAX_DURATION_NANOS
                                },
                            decreases properties.len() - q,
                        {
                            let animation = Animation::new(config.name.clone(), &config.options);
                            assert(0 * animation@.duration == 0) by (nonlinear_arith);
                            group.push((properties[q], animation));
                            q = q + 1;
                        }
                        assert(group_model(group@) =~= Seq::new(q as nat, |j: int| new_member(properties@[j], config.options, config.name@)));
                    },
                    None => {},
                }
            } else {
                let ghost members0 = group@;
                let mut members = group;
                let mut updated: Vec<(usize, Animation)> = Vec::new();
                let ghost mut j: int = 0;
                while members.len() > 0
                    invariant
                        0 <= j <= members0.len(),
                        members@ == members0.skip(j),
                        group_model(members0) == g1,
                        playable(config.options),
                        forall|q: int| 0 <= q < members0.len() ==> {
                            &&& (#[trigger] members0[q]).1@.wf()
                            &&& members0[q].1@.total_elapsed() <= MAX_DURATION_NANOS
                        },
                        updated@.len() == j,
                        forall|q: int| 0 <= q < j ==> #[trigger] animation_model(updated@[q]) == updated_member(g1[q], config.options),
                        forall|q: int| 0 <= q < j ==> {
                            &&& (#[trigger] updated@[q]).1@.wf()
                            &&& updated@[q].1@.total_elapsed() <= MAX_DURATION_NANOS
                        },
                    decreases members.len(),
                {
                    assert(members@[0] == members0[j]);
                    assert(g1[j] == animation_model(members0[j]));
                    let (property_id, mut animation) = members.remove(0);
                    proof {
                        lemma_playable_replays(config.options, animation@.total_elapsed());
                    }
                    animation.update_options(&config.options);
                    updated.push((property_id, animation));
                    proof {
                        j = j + 1;
                    }
                    assert(members@ =~= members0.skip(j));
                }
                assert(group_model(updated@) =~= Seq::new(j as nat, |q: int| updated_member(g1[q], config.options)));
                group = updated;
            }
            assert forall|q: int| 0 <= q < group@.len() implies {
                &&& (#[trigger] group@[q]).1@.wf()
                &&& group@[q].1@.total_elapsed() <= MAX_DURATION_NANOS
            } by {}
            proof {
                lemma_ready_insert(self.animations@, idx as int, (group_name, group));
            }
            self.animations.insert(idx, (group_name, group));
            assert(groups_model(self.animations@) =~= apply_configs(m1, cs.take(i + 1), rs.take(i + 1)));
            i = i + 1;
        }
        assert(cs.take(cs.len() as int) =~= cs);
        assert(rs.take(rs.len() as int) =~= rs);
        self.current_animation_configs = new_animation_configs;
    }
}

/// The animations of a group.
pub open spec fn members_of(g: Seq<(usize, Animation)>) -> Seq<Animation> {
    g.map_values(|e: (usize, Animation)| e.1)
}

/// The animations that emit a value, group after group, in order.
pub open spec fn active_animations_of(gs: Seq<(String, Vec<(usize, Animation)>)>) -> Seq<Animation>
    decreases gs.len(),
{
    if gs.len() == 0 {
        Seq::empty()
    } else {
        active_animations_of(gs.drop_last()) + members_of(gs.last().1@).filter(|a: Animation| a@.active())
    }
}

/// The transitions that emit a value, in order.
pub open spec fn active_transitions_of(ts: Seq<(usize, Transition)>) -> Seq<Transition> {
    ts.filter(|e: (usize, Transition)| e.1.tickable()).map_values(|e: (usize, Transition)| e.1)
}

/// Whether a transition can advance.
pub open spec fn transition_can_tick(e: (usize, Transition)) -> bool {
    e.1.tickable()
}

/// Whether an animation can advance and is not paused.
pub open spec fn animation_can_tick(a: Animation) -> bool {
    &&& (a.state == AnimationState::Pending || a.state == AnimationState::Running || a.state == AnimationState::JustFinished)
    &&& !a@.paused
}

impl<E> StyleAnimations<E> {
    /// The transitions that emit a value, in order.
    pub fn active_transitions(&self) -> (r: Vec<&Transition>)
        ensures
            r@.map_values(|t: &Transition| *t) == active_transitions_of(self.transitions@),
    {
        broadcast use vstd::seq::Seq::lemma_filter_push;
        let ghost keep = |e: (usize, Transition)| e.1.tickable();
        let ghost ts = self.transitions@;
        let mut r: Vec<&Transition> = Vec::new();
        let mut i: usize = 0;
        assert(ts.take(0).filter(keep) =~= Seq::<(usize, Transition)>::empty());
        while i < self.transitions.len()
            invariant
                i <= ts.len(),
                ts == self.transitions@,
                keep == (|e: (usize, Transition)| e.1.tickable()),
                r@.map_values(|t: &Transition| *t) == ts.take(i as int).filter(keep).map_values(|e: (usize, Transition)| e.1),
            decreases self.transitions.len() - i,
        {
            assert(ts.take(i + 1) =~= ts.take(i as int).push(ts[i as int]));
            proof {
                ts.take(i as int).lemma_filter_push(ts[i as int], keep);
            }
            let ghost before = r@;
            if self.transitions[i].1.is_active() {
                r.push(&self.transitions[i].1);
                assert(r@.map_values(|t: &Transition| *t) =~= before.map_values(|t: &Transition| *t).push(ts[i as int].1));
                assert(ts.take(i + 1).filter(keep).map_values(|e: (usize, Transition)| e.1)
                    =~= ts.take(i as int).filter(keep).map_values(|e: (usize, Transition)| e.1).push(ts[i as int].1));
            }
            i = i + 1;
        }
        assert(ts.take(i as int) =~= ts);
        r
    }

    /// The animations that emit a value, group after group, in order.
    pub fn active_animations(&self) -> (r: Vec<&Animation>)
        ensures
            r@.map_values(|a: &Animation| *a) == active_animations_of(self.animations@),
    {
        broadcast use vstd::seq::Seq::lemma_filter_push;
        let ghost keep = |a: Animation| a@.active();
        let ghost gs = self.animations@;
        let mut r: Vec<&Animation> = Vec::new();
        let mut g: usize = 0;
        while g < self.animations.len()
            invariant
                g <= gs.len(),
                gs == self.animations@,
                keep == (|a: Animation| a@.active()),
                r@.map_values(|a: &Animation| *a) == active_animations_of(gs.take(g as int)),
            decreases self.animations.len() - g,
        {
            assert(gs.take(g + 1).drop_last() =~= gs.take(g as int));
            let group = &self.animations[g].1;
            let ghost ms = members_of(group@);
            let ghost start = r@.map_values(|a: &Animation| *a);
            assert(ms.take(0).filter(keep) =~= Seq::<Animation>::empty());
            let mut k: usize = 0;
            while k < group.len()
                invariant
                    k <= group@.len(),
                    ms == members_of(group@),
                    ms.len() == group@.len(),
                    keep == (|a: Animation| a@.active()),
                    r@.map_values(|a: &Animation| *a) == start + ms.take(k as int).filter(keep),
                decreases group.len() - k,
            {
                assert(ms.take(k + 1) =~= ms.take(k as int).push(ms[k as int]));
                proof {
                    ms.take(k as int).lemma_filter_push(ms[k as int], keep);
                }
                let ghost before = r@;
                if group[k].1.is_active() {
                    r.push(&group[k].1);
                    assert(r@.map_values(|a: &Animation| *a) =~= before.map_values(|a: &Animation| *a).push(ms[k as int]));
                    assert(start + ms.take(k + 1).filter(keep) =~= (start + ms.take(k as int).filter(keep)).push(ms[k as int]));
                }
                k = k + 1;
            }
            assert(ms.take(k as int) =~= ms);
            g = g + 1;
        }
        assert(gs.take(g as int) =~= gs);
        r
    }

    /// Whether some transition can advance, or some animation can advance
    /// and is not paused.
    pub fn has_tickable_animations_or_transitions(&self) -> (r: bool)
        ensures
            r == ((exists|i: int| 0 <= i < self.transitions@.len() && transition_can_tick(#[trigger] self.transitions@[i]))
                || (exists|g: int, i: int| 0 <= g < self.animations@.len() && 0 <= i < self.animations@[g].1@.len()
                    && animation_can_tick((#[trigger] self.animations@[g].1@[i]).1))),
    {
        let mut i: usize = 0;
        while i < self.transitions.len()
            invariant
                i <= self.transitions@.len(),
                forall|k: int| 0 <= k < i ==> !transition_can_tick(#[trigger] self.transitions@[k]),
            decreases self.transitions.len() - i,
        {
            if self.transitions[i].1.can_be_ticked() {
                assert(transition_can_tick(self.transitions@[i as int]));
                return true;
            }
            i = i + 1;
        }
        let mut g: usize = 0;
        while g < self.animations.len()
            invariant
                g <= self.animations@.len(),
                forall|k: int| 0 <= k < self.transitions@.len() ==> !transition_can_tick(#[trigger] self.transitions@[k]),
                forall|h: int, k: int| 0 <= h < g && 0 <= k < self.animations@[h].1@.len()
                    ==> !animation_can_tick((#[trigger] self.animations@[h].1@[k]).1),
            decreases self.animations.len() - g,
        {
            let group = &self.animations[g].1;
            assert(group@ == self.animations@[g as int].1@);
            let mut k: usize = 0;
            while k < group.len()
                invariant
                    g < self.animations@.len(),
                    k <= group@.len(),
                    group@ == self.animations@[g as int].1@,
                    forall|q: int| 0 <= q < k ==> !animation_can_tick((#[trigger] group@[q]).1),
                decreases group.len() - k,
            {
                if group[k].1.can_be_ticked() && group[k].1.get_play_state() == AnimationPlayState::Running {
                    assert(animation_can_tick(self.animations@[g as int].1@[k as int].1));
                    return true;
                }
                k = k + 1;
            }
            g = g + 1;
        }
        false
    }

    /// Drops every transition, animation, option, configuration and event.
    pub fn reset(&mut self)
        ensures
            final(self).transitions_options@.len() == 0,
            final(self).transitions@.len() == 0,
            final(self).pending_transition_events@.len() == 0,
            final(self).animations@.len() == 0,
            final(self).pending_animation_events@.len() == 0,
            final(self).current_animation_configs@.len() == 0,
    {
        self.transitions_options.clear();
        self.transitions.clear();
        self.pending_transition_events.clear();
        self.current_animation_configs.clear();
        self.animations.clear();
        self.pending_animation_events.clear();
    }
}

/// Index of the first transition of property `p`, or the number of transitions.
pub open spec fn transition_index(ts: Seq<(usize, Transition)>, p: usize) -> int
    decreases ts.len(),
{
    if ts.len() == 0 {
        0
    } else if transition_index(ts.drop_last(), p) < ts.len() - 1 {
        transition_index(ts.drop_last(), p)
    } else if ts.last().0 == p {
        ts.len() - 1
    } else {
        ts.len() as int
    }
}

/// The first transition of `p` is found by looking at the transitions in order.
pub proof fn lemma_transition_index(ts: Seq<(usize, Transition)>, p: usize, j: int)
    requires
        0 <= j <= ts.len(),
        forall|k: int| 0 <= k < j ==> (#[trigger] ts[k]).0 != p,
        j < ts.len() ==> ts[j].0 == p,
    ensures
        transition_index(ts, p) == j,
    decreases ts.len(),
{
    if ts.len() > 0 {
        let t = ts.drop_last();
        if j < ts.len() - 1 {
            lemma_transition_index(t, p, j);
        } else {
            lemma_transition_index(t, p, t.len() as int);
        }
    }
}

/// Starting the transition of `p` with `options`: it replaces the transition
/// of `p`, with an event, or is added after the others.
pub open spec fn start_transition<E>(
    ts: Seq<(usize, Transition)>,
    p: usize,
    options: TransitionOptions<E>,
) -> (Seq<(usize, Transition)>, Seq<TransitionEvent>) {
    let idx = transition_index(ts, p);
    let t = fresh_transition(options.initial_delay, options.duration);
    if idx < ts.len() {
        (ts.update(idx, (p, t)), seq![TransitionEvent { event_type: TransitionEventType::Replaced, property_id: p }])
    } else {
        (ts.push((p, t)), Seq::empty())
    }
}

/// The transitions and the events after starting, in the order of the
/// options, the transition of each property in `changed`.
pub open spec fn started_transitions<E>(
    ts: Seq<(usize, Transition)>,
    options: Seq<(usize, TransitionOptions<E>)>,
    changed: Seq<usize>,
) -> (Seq<(usize, Transition)>, Seq<TransitionEvent>)
    decreases options.len(),
{
    if options.len() == 0 {
        (ts, Seq::empty())
    } else {
        let (ts1, ev1) = started_transitions(ts, options.drop_last(), changed);
        let (p, o) = options.last();
        if changed.contains(p) {
            let (ts2, ev2) = start_transition(ts1, p, o);
            (ts2, ev1 + ev2)
        } else {
            (ts1, ev1)
        }
    }
}

/// Options a transition can be created with: delay and duration together
/// are representable.
pub open spec fn startable<E>(options: Seq<(usize, TransitionOptions<E>)>) -> bool {
    forall|i: int| 0 <= i < options.len() ==>
        (#[trigger] options[i]).1.initial_delay + options[i].1.duration <= MAX_DURATION_NANOS
}

impl<E> StyleAnimations<E> {
    /// Starts a transition for every property that has transition options
    /// and whose value changed (`changed`: the properties whose computed
    /// value went from one value to another of a type that can be
    /// interpolated). A transition of the same property is replaced, which
    /// raises an event.
    pub fn create_transitions(&mut self, changed: &Vec<usize>)
        requires
            startable(old(self).transitions_options@),
        ensures
            final(self).transitions@ == started_transitions(old(self).transitions@, old(self).transitions_options@, changed@).0,
            final(self).pending_transition_events@ == old(self).pending_transition_events@
                + started_transitions(old(self).transitions@, old(self).transitions_options@, changed@).1,
            transitions_wf(old(self).transitions@) ==> transitions_wf(final(self).transitions@),
            final(self).transitions_options@ == old(self).transitions_options@,
            final(self).animations@ == old(self).animations@,
            final(self).pending_animation_events@ == old(self).pending_animation_events@,
    {
        let ghost opts = self.transitions_options@;
        let mut j: usize = 0;
        while j < self.transitions_options.len()
            invariant
                j <= opts.len(),
                opts == self.transitions_options@,
                opts == old(self).transitions_options@,
                startable(opts),
                self.transitions@ == started_transitions(old(self).transitions@, opts.take(j as int), changed@).0,
                self.pending_transition_events@ == old(self).pending_transition_events@
                    + started_transitions(old(self).transitions@, opts.take(j as int), changed@).1,
                transitions_wf(old(self).transitions@) ==> transitions_wf(self.transitions@),
                self.animations@ == old(self).animations@,
                self.pending_animation_events@ == old(self).pending_animation_events@,
            decreases self.transitions_options.len() - j,
        {
            assert(opts.take(j + 1).drop_last() =~= opts.take(j as int));
            assert(opts.take(j + 1).last() == opts[j as int]);
            let property_id = self.transitions_options[j].0;
            let mut is_changed = false;
            let mut q: usize = 0;
            while q < changed.len()
                invariant
                    q <= changed@.len(),
                    is_changed == exists|r: int| 0 <= r < q && changed@[r] == property_id,
                decreases changed.len() - q,
            {
                if changed[q] == property_id {
                    is_changed = true;
                }
                q = q + 1;
            }
            assert(is_changed == changed@.contains(property_id));
            if is_changed {
                let ghost ts = self.transitions@;
                let ghost events = self.pending_transition_events@;
                let mut idx: usize = 0;
                while idx < self.transitions.len() && self.transitions[idx].0 != property_id
                    invariant
                        idx <= ts.len(),
                        ts == self.transitions@,
                        forall|k: int| 0 <= k < idx ==> (#[trigger] ts[k]).0 != property_id,
                    decreases self.transitions.len() - idx,
                {
                    idx = idx + 1;
                }
                proof {
                    lemma_transition_index(ts, property_id, idx as int);
                }
                let transition = Transition::new(&self.transitions_options[j].1);
                if idx < self.transitions.len() {
                    self.transitions.set(idx, (property_id, transition));
                    self.pending_transition_events.push(
                        TransitionEvent { event_type: TransitionEventType::Replaced, property_id },
                    );
                    assert(self.pending_transition_events@ =~= events
                        + seq![TransitionEvent { event_type: TransitionEventType::Replaced, property_id }]);
                } else {
                    self.transitions.push((property_id, transition));
                    assert(self.pending_transition_events@ =~= events + Seq::<TransitionEvent>::empty());
                }
            }
            j = j + 1;
        }
        assert(opts.take(j as int) =~= opts);
    }
}

/// A tick raises, for one animation, exactly one `Finished` event when it
/// brings the animation from pending or running to just finished, whether or
/// not it also started in that tick, and none otherwise; exactly one
/// `Started` event when it leaves pending, and none otherwise; `Started`
/// comes first; nothing else is raised.
pub proof fn lemma_tick_event_types(a: AnimationView, delta: int)
    ensures
        ({
            let ev = animation_tick_event_types(a, delta);
            let after = a.ticked(delta);
            let finishes = (a.state == AnimationState::Pending || a.state == AnimationState::Running)
                && after.state == AnimationState::JustFinished;
            let starts = a.state == AnimationState::Pending && after.state != AnimationState::Pending;
            &&& (exists|i: int| 0 <= i < ev.len() && ev[i] == AnimationEventType::Finished) <==> finishes
            &&& forall|i: int, j: int| 0 <= i < ev.len() && 0 <= j < ev.len() && ev[i] == AnimationEventType::Finished
                && ev[j] == AnimationEventType::Finished ==> i == j
            &&& (exists|i: int| 0 <= i < ev.len() && ev[i] == AnimationEventType::Started) <==> starts
            &&& forall|i: int, j: int| 0 <= i < ev.len() && 0 <= j < ev.len() && ev[i] == AnimationEventType::Started
                && ev[j] == AnimationEventType::Started ==> i == j
            &&& forall|i: int, j: int| 0 <= i < ev.len() && 0 <= j < ev.len() && ev[i] == AnimationEventType::Started
                && ev[j] == AnimationEventType::Finished ==> i < j
            &&& forall|i: int| 0 <= i < ev.len() ==> ev[i] == AnimationEventType::Started || ev[i] == AnimationEventType::Finished
        }),
{
    let ev = animation_tick_event_types(a, delta);
    let after = a.ticked(delta);
    let finishes = (a.state == AnimationState::Pending || a.state == AnimationState::Running)
        && after.state == AnimationState::JustFinished;
    let starts = a.state == AnimationState::Pending && after.state != AnimationState::Pending;
    if animation_tickable(a.state) {
        let st: Seq<AnimationEventType> = if starts { seq![AnimationEventType::Started] } else { Seq::empty() };
        let fi: Seq<AnimationEventType> = if finishes { seq![AnimationEventType::Finished] } else { Seq::empty() };
        assert(ev == st + fi);
        if starts && finishes {
            assert(ev =~= seq![AnimationEventType::Started, AnimationEventType::Finished]);
            assert(ev[0] == AnimationEventType::Started);
            assert(ev[1] == AnimationEventType::Finished);
        } else if starts {
            assert(ev =~= seq![AnimationEventType::Started]);
            assert(ev[0] == AnimationEventType::Started);
        } else if finishes {
            assert(ev =~= seq![AnimationEventType::Finished]);
            assert(ev[0] == AnimationEventType::Finished);
        } else {
            assert(ev =~= Seq::<AnimationEventType>::empty());
        }
    } else {
        assert(!finishes && !starts);
    }
}

/// Whether the transition `e` was started for the property of the options
/// entry `o`, with that entry's delay and duration, and has not run yet.
pub open spec fn started_with<E>(e: (usize, Transition), o: (usize, TransitionOptions<E>)) -> bool {
    &&& e.0 == o.0
    &&& e.1.initial_delay == o.1.initial_delay
    &&& e.1.duration == o.1.duration
    &&& e.1.state == TransitionState::Pending
}

proof fn lemma_transition_index_bounds(ts: Seq<(usize, Transition)>, p: usize)
    ensures
        0 <= transition_index(ts, p) <= ts.len(),
        transition_index(ts, p) < ts.len() ==> ts[transition_index(ts, p)].0 == p,
    decreases ts.len(),
{
    if ts.len() > 0 {
        lemma_transition_index_bounds(ts.drop_last(), p);
    }
}

/// Starting the transition of `p` puts in one transition started with
/// `p`'s options, and keeps every transition of another property.
proof fn lemma_start_transition<E>(ts: Seq<(usize, Transition)>, p: usize, o: TransitionOptions<E>)
    ensures
        ({
            let r = start_transition(ts, p, o).0;
            &&& exists|k: int| 0 <= k < r.len() && started_with(r[k], (p, o))
            &&& forall|k: int| 0 <= k < r.len() ==> ts.contains(#[trigger] r[k]) || started_with(r[k], (p, o))
            &&& forall|e: (usize, Transition)| ts.contains(e) && e.0 != p ==> #[trigger] r.contains(e)
        }),
{
    lemma_transition_index_bounds(ts, p);
    let idx = transition_index(ts, p);
    let t = fresh_transition(o.initial_delay, o.duration);
    let r = start_transition(ts, p, o).0;
    if idx < ts.len() {
        assert(r == ts.update(idx, (p, t)));
        assert(started_with(r[idx], (p, o)));
        assert forall|k: int| 0 <= k < r.len() implies ts.contains(#[trigger] r[k]) || started_with(r[k], (p, o)) by {
            if k != idx {
                assert(ts[k] == r[k]);
            }
        }
        assert forall|e: (usize, Transition)| ts.contains(e) && e.0 != p implies #[trigger] r.contains(e) by {
            let k = choose|k: int| 0 <= k < ts.len() && ts[k] == e;
            assert(k != idx);
            assert(r[k] == e);
        }
    } else {
        assert(r == ts.push((p, t)));
        assert(started_with(r[ts.len() as int], (p, o)));
        assert forall|k: int| 0 <= k < r.len() implies ts.contains(#[trigger] r[k]) || started_with(r[k], (p, o)) by {
            if k < ts.len() {
                assert(ts[k] == r[k]);
            }
        }
        assert forall|e: (usize, Transition)| ts.contains(e) && e.0 != p implies #[trigger] r.contains(e) by {
            let k = choose|k: int| 0 <= k < ts.len() && ts[k] == e;
            assert(r[k] == e);
        }
    }
}

/// Every transition after starting those of the changed properties is one
/// that was there, or one started for a changed property with that
/// property's own delay and duration.
pub proof fn lemma_started_transitions_use_own_options<E>(
    ts: Seq<(usize, Transition)>,
    options: Seq<(usize, TransitionOptions<E>)>,
    changed: Seq<usize>,
)
    ensures
        forall|k: int| 0 <= k < started_transitions(ts, options, changed).0.len() ==>
            ts.contains(#[trigger] started_transitions(ts, options, changed).0[k])
            || exists|i: int| 0 <= i < options.len() && changed.contains(options[i].0)
                && started_with(started_transitions(ts, options, changed).0[k], options[i]),
    decreases options.len(),
{
    if options.len() > 0 {
        let rest = options.drop_last();
        lemma_started_transitions_use_own_options(ts, rest, changed);
        let ts1 = started_transitions(ts, rest, changed).0;
        let (p, o) = options.last();
        let r = started_transitions(ts, options, changed).0;
        if changed.contains(p) {
            lemma_start_transition(ts1, p, o);
        }
        assert forall|k: int| 0 <= k < r.len() implies ts.contains(#[trigger] r[k])
            || exists|i: int| 0 <= i < options.len() && changed.contains(options[i].0) && started_with(r[k], options[i]) by {
            if changed.contains(p) && started_with(r[k], (p, o)) {
                assert(options[options.len() - 1] == (p, o));
            } else {
                let k1 = if changed.contains(p) { choose|k1: int| 0 <= k1 < ts1.len() && ts1[k1] == r[k] } else { k };
                assert(ts1[k1] == r[k]);
                if !ts.contains(r[k]) {
                    let i = choose|i: int| 0 <= i < rest.len() && changed.contains(rest[i].0) && started_with(ts1[k1], rest[i]);
                    assert(options[i] == rest[i]);
                }
            }
        }
    }
}

/// Each changed property with transition options gets a transition started
/// with its own delay and duration: that of its last options entry.
pub proof fn lemma_changed_properties_start<E>(
    ts: Seq<(usize, Transition)>,
    options: Seq<(usize, TransitionOptions<E>)>,
    changed: Seq<usize>,
    i: int,
)
    requires
        0 <= i < options.len(),
        changed.contains(options[i].0),
        forall|j: int| i < j < options.len() ==> (#[trigger] options[j]).0 != options[i].0,
    ensures
        exists|k: int| 0 <= k < started_transitions(ts, options, changed).0.len()
            && started_with(started_transitions(ts, options, changed).0[k], options[i]),
    decreases options.len(),
{
    let rest = options.drop_last();
    let ts1 = started_transitions(ts, rest, changed).0;
    let (p, o) = options.last();
    let r = started_transitions(ts, options, changed).0;
    if i == options.len() - 1 {
        lemma_start_transition(ts1, p, o);
    } else {
        assert forall|j: int| i < j < rest.len() implies (#[trigger] rest[j]).0 != rest[i].0 by {
            assert(rest[j] == options[j]);
        }
        lemma_changed_properties_start(ts, rest, changed, i);
        assert(rest[i] == options[i]);
        let k = choose|k: int| 0 <= k < ts1.len() && started_with(ts1[k], rest[i]);
        if changed.contains(p) {
            lemma_start_transition(ts1, p, o);
            assert(p != options[i].0);
            assert(ts1.contains(ts1[k]));
            assert(r.contains(ts1[k]));
            let k2 = choose|k2: int| 0 <= k2 < r.len() && r[k2] == ts1[k];
            assert(started_with(r[k2], options[i]));
        } else {
            assert(started_with(r[k], options[i]));
        }
    }
}

/// A tick raises, for one transition of `property`, a `Started` event
/// exactly when it leaves pending and a `Finished` event exactly when it is
/// finished afterwards, each at most once, `Started` first, all for that
/// property and nothing else.
pub proof fn lemma_transition_tick_events(property: usize, t: Transition, delta: int)
    ensures
        ({
            let ev = transition_tick_events(property, t, delta);
            let after = t.ticked(delta);
            let starts = t.state == TransitionState::Pending && after.state != TransitionState::Pending;
            let finishes = after.state == TransitionState::Finished;
            &&& (exists|i: int| 0 <= i < ev.len() && ev[i].event_type == TransitionEventType::Started) <==> starts
            &&& (exists|i: int| 0 <= i < ev.len() && ev[i].event_type == TransitionEventType::Finished) <==> finishes
            &&& ev.len() == (if starts { 1int } else { 0 }) + (if finishes { 1int } else { 0 })
            &&& forall|i: int| 0 <= i < ev.len() ==> ev[i].property_id == property
                && (ev[i].event_type == TransitionEventType::Started || ev[i].event_type == TransitionEventType::Finished)
            &&& forall|i: int, j: int| 0 <= i < ev.len() && 0 <= j < ev.len()
                && ev[i].event_type == TransitionEventType::Started && ev[j].event_type == TransitionEventType::Finished ==> i < j
        }),
{
    let ev = transition_tick_events(property, t, delta);
    let after = t.ticked(delta);
    let starts = t.state == TransitionState::Pending && after.state != TransitionState::Pending;
    let finishes = after.state == TransitionState::Finished;
    let s = TransitionEvent { event_type: TransitionEventType::Started, property_id: property };
    let f = TransitionEvent { event_type: TransitionEventType::Finished, property_id: property };
    if starts && finishes {
        assert(ev =~= seq![s, f]);
        assert(ev[0] == s && ev[1] == f);
    } else if starts {
        assert(ev =~= seq![s]);
        assert(ev[0] == s);
    } else if finishes {
        assert(ev =~= seq![f]);
        assert(ev[0] == f);
    } else {
        assert(ev =~= Seq::<TransitionEvent>::empty());
    }
}

/// Only the transitions of a property that had options and has none now are
/// canceled by new options: a property that keeps options, or never had
/// any, keeps its transitions.
pub proof fn lemma_dropped_property<E>(
    old_options: Seq<(usize, TransitionOptions<E>)>,
    new_options: Seq<(usize, TransitionOptions<E>)>,
    p: usize,
)
    ensures
        (exists|r: int| 0 <= r < new_options.len() && new_options[r].0 == p) ==> !dropped_property(old_options, new_options, p),
        (forall|i: int| 0 <= i < old_options.len() ==> old_options[i].0 != p) ==> !dropped_property(old_options, new_options, p),
        (exists|i: int| 0 <= i < old_options.len() && old_options[i].0 == p)
            && (forall|r: int| 0 <= r < new_options.len() ==> new_options[r].0 != p) ==> dropped_property(old_options, new_options, p),
{
    if exists|r: int| 0 <= r < new_options.len() && new_options[r].0 == p {
        let r = choose|r: int| 0 <= r < new_options.len() && new_options[r].0 == p;
        assert(new_options[r].0 == p);
    }
    if exists|i: int| 0 <= i < old_options.len() && old_options[i].0 == p {
        let i = choose|i: int| 0 <= i < old_options.len() && old_options[i].0 == p;
        assert(old_options[i].0 == p);
    }
}

} // verus!

