//! Cascade order: rules of higher-priority layers, and then more specific
//! rules, come last. The sort is stable: rules that tie keep their order.

use vstd::prelude::*;

verus! {

/// A rule's place in the cascade: its layer priority and its specificity,
/// with what it carries.
#[derive(Debug)]
pub struct CascadeEntry<T> {
    /// Priority of the rule's layer; higher wins.
    pub layer_priority: usize,
    /// Specificity of the rule's selector; higher wins.
    pub specificity: u32,
    /// What the rule carries.
    pub item: T,
}

/// Whether `a` comes no later than `b` in the cascade.
pub open spec fn cascade_le<T>(a: CascadeEntry<T>, b: CascadeEntry<T>) -> bool {
    a.layer_priority < b.layer_priority || (a.layer_priority == b.layer_priority && a.specificity <= b.specificity)
}

/// Whether entries are in cascade order.
pub open spec fn cascade_sorted<T>(s: Seq<CascadeEntry<T>>) -> bool {
    forall|i: int, j: int| 0 <= i < j < s.len() ==> cascade_le(#[trigger] s[i], #[trigger] s[j])
}

/// `x` inserted into `s` after every entry that comes no later than it.
pub open spec fn insert_in_order<T>(s: Seq<CascadeEntry<T>>, x: CascadeEntry<T>) -> Seq<CascadeEntry<T>>
    decreases s.len(),
{
    if s.len() == 0 {
        seq![x]
    } else if cascade_le(s.last(), x) {
        s.push(x)
    } else {
        insert_in_order(s.drop_last(), x).push(s.last())
    }
}

/// `s` in cascade order: each entry in turn inserted after the entries
/// already placed that come no later than it, so that ties keep their order.
pub open spec fn cascade_order<T>(s: Seq<CascadeEntry<T>>) -> Seq<CascadeEntry<T>>
    decreases s.len(),
{
    if s.len() == 0 {
        Seq::empty()
    } else {
        insert_in_order(cascade_order(s.drop_last()), s.last())
    }
}

/// Inserting in order keeps entries in order and adds exactly the entry.
pub proof fn lemma_insert_in_order<T>(s: Seq<CascadeEntry<T>>, x: CascadeEntry<T>)
    requires
        cascade_sorted(s),
    ensures
        cascade_sorted(insert_in_order(s, x)),
        insert_in_order(s, x).to_multiset() == s.to_multiset().insert(x),
        insert_in_order(s, x).len() == s.len() + 1,
        forall|i: int| 0 <= i < insert_in_order(s, x).len() ==>
            (#[trigger] insert_in_order(s, x)[i] == x || s.contains(insert_in_order(s, x)[i])),
    decreases s.len(),
{
    broadcast use vstd::seq_lib::group_seq_properties, vstd::multiset::group_multiset_axioms;
    if s.len() == 0 {
        assert(seq![x].to_multiset() =~= vstd::multiset::Multiset::<CascadeEntry<T>>::empty().insert(x)) by {
            assert(seq![x] =~= Seq::<CascadeEntry<T>>::empty().push(x));
        }
    } else if cascade_le(s.last(), x) {
    } else {
        let t = s.drop_last();
        assert(cascade_sorted(t));
        lemma_insert_in_order(t, x);
        let r = insert_in_order(t, x);
        assert(s =~= t.push(s.last()));
        assert forall|i: int, j: int| 0 <= i < j < r.push(s.last()).len() implies
            cascade_le(#[trigger] r.push(s.last())[i], #[trigger] r.push(s.last())[j]) by {
            if j == r.len() {
                let e = r[i];
                if e != x {
                    assert(t.contains(e));
                    let k = choose|k: int| 0 <= k < t.len() && t[k] == e;
                    assert(cascade_le(s[k], s[s.len() - 1]));
                }
            }
        }
    }
}

/// The cascade order holds every entry once and is sorted.
pub proof fn lemma_cascade_order<T>(s: Seq<CascadeEntry<T>>)
    ensures
        cascade_sorted(cascade_order(s)),
        cascade_order(s).to_multiset() == s.to_multiset(),
        cascade_order(s).len() == s.len(),
    decreases s.len(),
{
    broadcast use vstd::seq_lib::group_seq_properties;
    if s.len() > 0 {
        lemma_cascade_order(s.drop_last());
        lemma_insert_in_order(cascade_order(s.drop_last()), s.last());
        assert(s =~= s.drop_last().push(s.last()));
    }
}

/// Whether an entry has this layer priority and this specificity.
pub open spec fn ties_with<T>(layer_priority: usize, specificity: u32) -> spec_fn(CascadeEntry<T>) -> bool {
    |e: CascadeEntry<T>| e.layer_priority == layer_priority && e.specificity == specificity
}

/// Inserting an entry in order puts it after every entry it ties with.
proof fn lemma_insert_keeps_ties<T>(s: Seq<CascadeEntry<T>>, x: CascadeEntry<T>, lp: usize, sp: u32)
    ensures
        insert_in_order(s, x).filter(ties_with(lp, sp)) == if ties_with::<T>(lp, sp)(x) {
            s.filter(ties_with(lp, sp)).push(x)
        } else {
            s.filter(ties_with(lp, sp))
        },
    decreases s.len(),
{
    let p = ties_with::<T>(lp, sp);
    if s.len() == 0 {
        assert(seq![x] =~= Seq::<CascadeEntry<T>>::empty().push(x));
        Seq::<CascadeEntry<T>>::empty().lemma_filter_push(x, p);
        assert(s.filter(p) =~= Seq::<CascadeEntry<T>>::empty());
    } else if cascade_le(s.last(), x) {
        s.lemma_filter_push(x, p);
    } else {
        let t = s.drop_last();
        lemma_insert_keeps_ties(t, x, lp, sp);
        insert_in_order(t, x).lemma_filter_push(s.last(), p);
        t.lemma_filter_push(s.last(), p);
        assert(s =~= t.push(s.last()));
    }
}

/// The sort is stable: the entries that tie with one another come out in
/// the order they came in.
pub proof fn lemma_cascade_order_stable<T>(s: Seq<CascadeEntry<T>>, layer_priority: usize, specificity: u32)
    ensures
        cascade_order(s).filter(ties_with(layer_priority, specificity)) == s.filter(ties_with(layer_priority, specificity)),
    decreases s.len(),
{
    let p = ties_with::<T>(layer_priority, specificity);
    if s.len() == 0 {
        assert(s.filter(p) =~= Seq::<CascadeEntry<T>>::empty());
        assert(cascade_order(s).filter(p) =~= Seq::<CascadeEntry<T>>::empty());
    } else {
        let t = s.drop_last();
        lemma_cascade_order_stable(t, layer_priority, specificity);
        lemma_insert_keeps_ties(cascade_order(t), s.last(), layer_priority, specificity);
        t.lemma_filter_push(s.last(), p);
        assert(s =~= t.push(s.last()));
    }
}

/// Inserting at the place found by walking back over the entries that come
/// after `x` gives the insertion in order.
proof fn lemma_insert_at<T>(s: Seq<CascadeEntry<T>>, x: CascadeEntry<T>, j: int)
    requires
        0 <= j <= s.len(),
        j == 0 || cascade_le(s[j - 1], x),
        forall|k: int| j <= k < s.len() ==> !cascade_le(#[trigger] s[k], x),
    ensures
        insert_in_order(s, x) == s.insert(j, x),
    decreases s.len(),
{
    if s.len() == 0 {
        assert(s.insert(0, x) =~= seq![x]);
    } else if j == s.len() {
        assert(s.insert(j, x) =~= s.push(x));
    } else {
        let t = s.drop_last();
        assert(!cascade_le(s[s.len() - 1], x));
        lemma_insert_at(t, x, j);
        assert(s.insert(j, x) =~= t.insert(j, x).push(s.last()));
    }
}

/// Sorts entries into cascade order, stably.
pub fn sort_by_cascade_order<T>(entries: Vec<CascadeEntry<T>>) -> (r: Vec<CascadeEntry<T>>)
    ensures
        r@ == cascade_order(entries@),
        cascade_sorted(r@),
        r@.to_multiset() == entries@.to_multiset(),
{
    let ghost input = entries@;
    let mut rest = entries;
    let mut result: Vec<CascadeEntry<T>> = Vec::new();
    let ghost mut t: int = 0;
    while rest.len() > 0
        invariant
            0 <= t <= input.len(),
            rest@ == input.skip(t),
            result@ == cascade_order(input.take(t)),
        decreases rest.len(),
    {
        assert(rest@[0] == input[t]);
        let x = rest.remove(0);
        let mut j = result.len();
        while j > 0 && !(result[j - 1].layer_priority < x.layer_priority
            || (result[j - 1].layer_priority == x.layer_priority && result[j - 1].specificity <= x.specificity))
            invariant
                j <= result@.len(),
                forall|k: int| j <= k < result@.len() ==> !cascade_le(#[trigger] result@[k], x),
            decreases j,
        {
            j = j - 1;
        }
        proof {
            lemma_insert_at(result@, x, j as int);
            assert(input.take(t + 1).drop_last() =~= input.take(t));
            assert(input.take(t + 1).last() == x);
        }
        result.insert(j, x);
        proof {
            t = t + 1;
        }
        assert(rest@ =~= input.skip(t));
    }
    assert(input.take(t) =~= input);
    proof {
        lemma_cascade_order(input);
    }
    result
}

} // verus!
