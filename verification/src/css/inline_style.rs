//! Inline styles: the declarations written in an element's `style`
//! attribute, such as `"width: 30px; --my-var: blue"`.
//!
//! The declarations are kept in a `LinkedHashMap` from property name to
//! value text. Setting a property that is already there replaces its value
//! and moves it to the end, so the declarations are in the order they were
//! last set.

use vstd::prelude::*;
use linked_hash_map::LinkedHashMap;

verus! {

#[verifier::external_type_specification]
#[verifier::external_body]
#[verifier::reject_recursive_types(K)]
#[verifier::reject_recursive_types(V)]
#[verifier::reject_recursive_types(S)]
pub struct ExLinkedHashMap<K, V, S>(linked_hash_map::LinkedHashMap<K, V, S>);

/// The entries of a map from property name to value, in iteration order.
pub uninterp spec fn map_entries(m: LinkedHashMap<String, String>) -> Seq<(Seq<char>, Seq<char>)>;

/// Whether an entry is not the one of `key`.
pub open spec fn other_key(key: Seq<char>) -> spec_fn((Seq<char>, Seq<char>)) -> bool {
    |e: (Seq<char>, Seq<char>)| e.0 != key
}

/// The entries without the one of `key`.
pub open spec fn without_key(es: Seq<(Seq<char>, Seq<char>)>, key: Seq<char>) -> Seq<(Seq<char>, Seq<char>)> {
    es.filter(other_key(key))
}

/// The entries once `key` is set to `value`: any entry of `key` leaves and
/// the new one comes last.
pub open spec fn with_entry(es: Seq<(Seq<char>, Seq<char>)>, key: Seq<char>, value: Seq<char>) -> Seq<(Seq<char>, Seq<char>)> {
    without_key(es, key).push((key, value))
}

/// The value of `key` among the entries (the last entry of it).
pub open spec fn lookup(es: Seq<(Seq<char>, Seq<char>)>, key: Seq<char>) -> Option<Seq<char>>
    decreases es.len(),
{
    if es.len() == 0 {
        None
    } else if es.last().0 == key {
        Some(es.last().1)
    } else {
        lookup(es.drop_last(), key)
    }
}

/// Whether no two entries have the same key.
pub open spec fn keys_unique(es: Seq<(Seq<char>, Seq<char>)>) -> bool {
    forall|i: int, j: int| 0 <= i < j < es.len() ==> (#[trigger] es[i]).0 != (#[trigger] es[j]).0
}

/// `LinkedHashMap::new`: a map with no entry.
#[verifier::external_body]
fn new_map() -> (r: LinkedHashMap<String, String>)
    ensures
        map_entries(r) == Seq::<(Seq<char>, Seq<char>)>::empty(),
{
    LinkedHashMap::new()
}

/// `LinkedHashMap::insert`: sets the value of `key`. An entry of `key`
/// already there takes the value and moves to the end; otherwise a new entry
/// is added at the end. Gives back the value `key` had.
#[verifier::external_body]
fn map_insert(m: &mut LinkedHashMap<String, String>, key: String, value: String) -> (r: Option<String>)
    ensures
        map_entries(*final(m)) == with_entry(map_entries(*old(m)), key@, value@),
        match r {
            Some(v) => lookup(map_entries(*old(m)), key@) == Some(v@),
            None => lookup(map_entries(*old(m)), key@) is None,
        },
{
    m.insert(key, value)
}

/// `LinkedHashMap::get`: the value of `key`, if it has an entry.
#[verifier::external_body]
fn map_get<'a>(m: &'a LinkedHashMap<String, String>, key: &str) -> (r: Option<&'a String>)
    ensures
        match r {
            Some(v) => lookup(map_entries(*m), key@) == Some(v@),
            None => lookup(map_entries(*m), key@) is None,
        },
{
    m.get(key)
}

/// `LinkedHashMap::remove`: takes out the entry of `key`, giving back its value.
#[verifier::external_body]
fn map_remove(m: &mut LinkedHashMap<String, String>, key: &str) -> (r: Option<String>)
    ensures
        map_entries(*final(m)) == without_key(map_entries(*old(m)), key@),
        match r {
            Some(v) => lookup(map_entries(*old(m)), key@) == Some(v@),
            None => lookup(map_entries(*old(m)), key@) is None,
        },
{
    m.remove(key)
}

/// `LinkedHashMap::iter`: the entries in order, each name and value copied.
#[verifier::external_body]
fn map_list(m: &LinkedHashMap<String, String>) -> (r: Vec<(String, String)>)
    ensures
        r@.len() == map_entries(*m).len(),
        forall|i: int| 0 <= i < r@.len() ==> (#[trigger] r@[i]).0@ == map_entries(*m)[i].0 && r@[i].1@ == map_entries(*m)[i].1,
{
    m.iter().map(|(k, v)| (k.clone(), v.clone())).collect()
}

/// Removing a key keeps the values of the other keys.
pub proof fn lemma_lookup_without(es: Seq<(Seq<char>, Seq<char>)>, key: Seq<char>, other: Seq<char>)
    ensures
        lookup(without_key(es, key), other) == if other == key { None } else { lookup(es, other) },
    decreases es.len(),
{
    if es.len() > 0 {
        let t = es.drop_last();
        assert(es =~= t.push(es.last()));
        t.lemma_filter_push(es.last(), other_key(key));
        lemma_lookup_without(t, key, other);
        let wt = without_key(t, key);
        assert(wt.push(es.last()).drop_last() =~= wt);
    } else {
        assert(without_key(es, key) =~= Seq::<(Seq<char>, Seq<char>)>::empty());
    }
}

/// Reading a property gives back the value last set for it; setting a
/// property leaves the others as they were.
pub proof fn lemma_lookup_with_entry(es: Seq<(Seq<char>, Seq<char>)>, key: Seq<char>, value: Seq<char>, other: Seq<char>)
    ensures
        lookup(with_entry(es, key, value), other) == if other == key { Some(value) } else { lookup(es, other) },
{
    lemma_lookup_without(es, key, other);
    assert(with_entry(es, key, value).drop_last() =~= without_key(es, key));
}

/// Entries that pass a filter keep distinct keys, none of them `key`.
proof fn lemma_without_unique(es: Seq<(Seq<char>, Seq<char>)>, key: Seq<char>)
    requires
        keys_unique(es),
    ensures
        keys_unique(without_key(es, key)),
        forall|i: int| 0 <= i < without_key(es, key).len() ==> (#[trigger] without_key(es, key)[i]).0 != key,
    decreases es.len(),
{
    let w = without_key(es, key);
    assert forall|i: int| 0 <= i < w.len() implies (#[trigger] w[i]).0 != key by {
        es.lemma_filter_pred(other_key(key), i);
    }
    if es.len() > 0 {
        let t = es.drop_last();
        assert(es =~= t.push(es.last()));
        t.lemma_filter_push(es.last(), other_key(key));
        assert(keys_unique(t));
        lemma_without_unique(t, key);
        let wt = without_key(t, key);
        if es.last().0 != key {
            assert(w == wt.push(es.last()));
            assert forall|i: int| 0 <= i < wt.len() implies (#[trigger] wt[i]).0 != es.last().0 by {
                assert(wt.contains(wt[i]));
                t.lemma_filter_contains_rev(other_key(key), wt[i]);
                let k = choose|k: int| 0 <= k < t.len() && t[k] == wt[i];
                assert(es[k] == t[k]);
                assert(es[es.len() - 1] == es.last());
            }
            assert forall|i: int, j: int| 0 <= i < j < w.len() implies (#[trigger] w[i]).0 != (#[trigger] w[j]).0 by {
                if j == w.len() - 1 {
                    assert(w[i] == wt[i]);
                } else {
                    assert(w[i] == wt[i] && w[j] == wt[j]);
                }
            }
        }
    } else {
        assert(w =~= Seq::<(Seq<char>, Seq<char>)>::empty());
    }
}

/// Setting a property keeps the names distinct.
pub proof fn lemma_with_entry_unique(es: Seq<(Seq<char>, Seq<char>)>, key: Seq<char>, value: Seq<char>)
    requires
        keys_unique(es),
    ensures
        keys_unique(with_entry(es, key, value)),
{
    lemma_without_unique(es, key);
}

/// Removing a property keeps the names distinct.
pub proof fn lemma_without_key_unique(es: Seq<(Seq<char>, Seq<char>)>, key: Seq<char>)
    requires
        keys_unique(es),
    ensures
        keys_unique(without_key(es, key)),
{
    lemma_without_unique(es, key);
}

/// Whether `c` is white space: a character with the Unicode `White_Space`
/// property, as `char::is_whitespace` and `str::trim` define it.
pub open spec fn is_white_space(c: char) -> bool {
    ||| ('\u{9}' <= c && c <= '\u{d}')
    ||| c == ' '
    ||| c == '\u{85}'
    ||| c == '\u{a0}'
    ||| c == '\u{1680}'
    ||| ('\u{2000}' <= c && c <= '\u{200a}')
    ||| c == '\u{2028}'
    ||| c == '\u{2029}'
    ||| c == '\u{202f}'
    ||| c == '\u{205f}'
    ||| c == '\u{3000}'
}

/// Whether `c` is white space.
pub fn is_white_space_char(c: char) -> (r: bool)
    ensures
        r == is_white_space(c),
{
    ('\u{9}' <= c && c <= '\u{d}') || c == ' ' || c == '\u{85}' || c == '\u{a0}' || c == '\u{1680}'
        || ('\u{2000}' <= c && c <= '\u{200a}') || c == '\u{2028}' || c == '\u{2029}' || c == '\u{202f}'
        || c == '\u{205f}' || c == '\u{3000}'
}

/// The first index from `i` on that does not hold white space, or the length.
pub open spec fn first_non_space(s: Seq<char>, i: int) -> int
    decreases s.len() - i,
{
    if i >= s.len() || !is_white_space(s[i]) {
        i
    } else {
        first_non_space(s, i + 1)
    }
}

/// The end of `s[lo..j]` once white space at its end is dropped.
pub open spec fn end_non_space(s: Seq<char>, j: int, lo: int) -> int
    decreases j - lo,
{
    if j <= lo || !is_white_space(s[j - 1]) {
        j
    } else {
        end_non_space(s, j - 1, lo)
    }
}

/// `s` without white space at either end.
pub open spec fn trimmed(s: Seq<char>) -> Seq<char> {
    let a = first_non_space(s, 0);
    s.subrange(a, end_non_space(s, s.len() as int, a))
}

/// `s` without white space at either end.
pub fn trim(s: &str) -> (r: &str)
    ensures
        r@ == trimmed(s@),
{
    let n = s.unicode_len();
    let mut i: usize = 0;
    while i < n && is_white_space_char(s.get_char(i))
        invariant
            i <= n,
            n == s@.len(),
            first_non_space(s@, i as int) == first_non_space(s@, 0),
        decreases n - i,
    {
        i = i + 1;
    }
    let mut j: usize = n;
    while j > i && is_white_space_char(s.get_char(j - 1))
        invariant
            i <= j <= n,
            n == s@.len(),
            first_non_space(s@, 0) == i,
            end_non_space(s@, j as int, i as int) == end_non_space(s@, n as int, i as int),
        decreases j,
    {
        j = j - 1;
    }
    s.substring_char(i, j)
}

/// The first index from `i` on that holds a colon, or the length.
pub open spec fn first_colon(s: Seq<char>, i: int) -> int
    decreases s.len() - i,
{
    if i >= s.len() || s[i] == ':' {
        i
    } else {
        first_colon(s, i + 1)
    }
}

/// The declaration a piece of an inline style holds, trimmed: the name and
/// the value around the first colon (an empty value when there is no
/// colon), or nothing when the piece is blank.
pub open spec fn declaration(piece: Seq<char>) -> Option<(Seq<char>, Seq<char>)> {
    let t = trimmed(piece);
    if t.len() == 0 {
        None
    } else {
        let k = first_colon(t, 0);
        if k < t.len() {
            Some((trimmed(t.take(k)), trimmed(t.skip(k + 1))))
        } else {
            Some((t, Seq::empty()))
        }
    }
}

/// The pieces between semicolons seen so far, and the piece being read.
pub open spec fn split_fold(s: Seq<char>) -> (Seq<Seq<char>>, Seq<char>)
    decreases s.len(),
{
    if s.len() == 0 {
        (Seq::empty(), Seq::empty())
    } else {
        let (done, current) = split_fold(s.drop_last());
        if s.last() == ';' {
            (done.push(current), Seq::empty())
        } else {
            (done, current.push(s.last()))
        }
    }
}

/// The pieces of `s` between semicolons, as `str::split(";")` gives them.
pub open spec fn pieces(s: Seq<char>) -> Seq<Seq<char>> {
    let (done, current) = split_fold(s);
    done.push(current)
}

/// The entries after reading the declarations of the pieces in order.
pub open spec fn declared_entries(ps: Seq<Seq<char>>) -> Seq<(Seq<char>, Seq<char>)>
    decreases ps.len(),
{
    if ps.len() == 0 {
        Seq::empty()
    } else {
        let prev = declared_entries(ps.drop_last());
        match declaration(ps.last()) {
            Some((name, value)) => with_entry(prev, name, value),
            None => prev,
        }
    }
}

/// The entries an inline style text declares: its pieces between
/// semicolons, read in order; a later declaration of a name wins.
pub open spec fn parsed_style(s: Seq<char>) -> Seq<(Seq<char>, Seq<char>)> {
    declared_entries(pieces(s))
}

/// The entries after setting each pair in order.
pub open spec fn entries_of(list: Seq<(String, String)>) -> Seq<(Seq<char>, Seq<char>)>
    decreases list.len(),
{
    if list.len() == 0 {
        Seq::empty()
    } else {
        with_entry(entries_of(list.drop_last()), list.last().0@, list.last().1@)
    }
}

/// The CSS text of the entries: `name: value;` and a line break for each.
pub open spec fn css_text(es: Seq<(Seq<char>, Seq<char>)>) -> Seq<char>
    decreases es.len(),
{
    if es.len() == 0 {
        Seq::empty()
    } else {
        css_text(es.drop_last()) + es.last().0 + ": "@ + es.last().1 + ";\n"@
    }
}

/// The declaration of one piece of an inline style.
fn parse_declaration(piece: &str) -> (r: Option<(String, String)>)
    ensures
        match declaration(piece@) {
            Some((name, value)) => r matches Some((n, v)) && n@ == name && v@ == value,
            None => r is None,
        },
{
    let t = trim(piece);
    let n = t.unicode_len();
    if n == 0 {
        return None;
    }
    let mut k: usize = 0;
    while k < n && t.get_char(k) != ':'
        invariant
            k <= n,
            n == t@.len(),
            first_colon(t@, k as int) == first_colon(t@, 0),
        decreases n - k,
    {
        k = k + 1;
    }
    if k < n {
        let name = trim(t.substring_char(0, k));
        let value = trim(t.substring_char(k + 1, n));
        assert(t@.subrange(0, k as int) =~= t@.take(k as int));
        assert(t@.subrange(k + 1, n as int) =~= t@.skip(k + 1));
        Some((String::from_str(name), String::from_str(value)))
    } else {
        Some((String::from_str(t), String::new()))
    }
}

/// Sets the declaration one piece holds, if any.
fn add_declaration(properties: &mut LinkedHashMap<String, String>, piece: &str)
    requires
        keys_unique(map_entries(*old(properties))),
    ensures
        map_entries(*final(properties)) == match declaration(piece@) {
            Some((name, value)) => with_entry(map_entries(*old(properties)), name, value),
            None => map_entries(*old(properties)),
        },
        keys_unique(map_entries(*final(properties))),
{
    if let Some((name, value)) = parse_declaration(piece) {
        proof {
            lemma_with_entry_unique(map_entries(*properties), name@, value@);
        }
        let _ = map_insert(properties, name, value);
    }
}

/// The declarations of an element's `style` attribute, by property name.
#[derive(Debug)]
pub struct InlineStyle {
    properties: LinkedHashMap<String, String>,
}

impl View for InlineStyle {
    type V = Seq<(Seq<char>, Seq<char>)>;

    /// The declarations, name and value, in the order they were last set.
    closed spec fn view(&self) -> Seq<(Seq<char>, Seq<char>)> {
        map_entries(self.properties)
    }
}

impl InlineStyle {
    /// Reads a `style` text: declarations separated by semicolons, each a
    /// name, a colon and a value, white space around them dropped. Blank
    /// pieces are skipped; a piece without a colon declares its text with
    /// an empty value; a later declaration of a name replaces an earlier one.
    pub fn new(style: &str) -> (r: InlineStyle)
        ensures
            r@ == parsed_style(style@),
            keys_unique(r@),
    {
        let n = style.unicode_len();
        let mut properties = new_map();
        let mut start: usize = 0;
        let mut i: usize = 0;
        while i < n
            invariant
                start <= i <= n,
                n == style@.len(),
                split_fold(style@.take(i as int)).1 == style@.subrange(start as int, i as int),
                map_entries(properties) == declared_entries(split_fold(style@.take(i as int)).0),
                keys_unique(map_entries(properties)),
            decreases n - i,
        {
            assert(style@.take(i + 1).drop_last() =~= style@.take(i as int));
            assert(style@.take(i + 1).last() == style@[i as int]);
            let ghost done = split_fold(style@.take(i as int)).0;
            if style.get_char(i) == ';' {
                let piece = style.substring_char(start, i);
                add_declaration(&mut properties, piece);
                assert(done.push(piece@).drop_last() =~= done);
                start = i + 1;
                assert(style@.subrange(start as int, i + 1) =~= Seq::<char>::empty());
            } else {
                assert(style@.subrange(start as int, i + 1) =~= style@.subrange(start as int, i as int).push(style@[i as int]));
            }
            i = i + 1;
        }
        assert(style@.take(n as int) =~= style@);
        let ghost done = split_fold(style@).0;
        let piece = style.substring_char(start, n);
        add_declaration(&mut properties, piece);
        assert(done.push(piece@).drop_last() =~= done);
        InlineStyle { properties }
    }

    /// An inline style with each pair set in order.
    pub fn from_entries(entries: Vec<(String, String)>) -> (r: InlineStyle)
        ensures
            r@ == entries_of(entries@),
            keys_unique(r@),
    {
        let ghost list = entries@;
        let mut properties = new_map();
        let mut rest = entries;
        let ghost mut t: int = 0;
        while rest.len() > 0
            invariant
                0 <= t <= list.len(),
                rest@ == list.skip(t),
                map_entries(properties) == entries_of(list.take(t)),
                keys_unique(map_entries(properties)),
            decreases rest.len(),
        {
            assert(rest@[0] == list[t]);
            assert(list.take(t + 1).drop_last() =~= list.take(t));
            let (name, value) = rest.remove(0);
            proof {
                lemma_with_entry_unique(map_entries(properties), name@, value@);
            }
            let _ = map_insert(&mut properties, name, value);
            proof {
                t = t + 1;
            }
            assert(rest@ =~= list.skip(t));
        }
        assert(list.take(t) =~= list);
        InlineStyle { properties }
    }

    /// The value of a property.
    pub fn get(&self, css_name: &str) -> (r: Option<&str>)
        ensures
            match r {
                Some(v) => lookup(self@, css_name@) == Some(v@),
                None => lookup(self@, css_name@) is None,
            },
    {
        match map_get(&self.properties, css_name) {
            Some(value) => Some(value.as_str()),
            None => None,
        }
    }

    /// Sets a property; one already set takes the new value and moves last.
    pub fn set(&mut self, css_name: String, value: String)
        ensures
            final(self)@ == with_entry(old(self)@, css_name@, value@),
    {
        let _ = map_insert(&mut self.properties, css_name, value);
    }

    /// Removes a property.
    pub fn remove(&mut self, css_name: &str)
        ensures
            final(self)@ == without_key(old(self)@, css_name@),
    {
        let _ = map_remove(&mut self.properties, css_name);
    }

    /// The declarations, name and value, in order.
    pub fn entries(&self) -> (r: Vec<(String, String)>)
        ensures
            r@.len() == self@.len(),
            forall|i: int| 0 <= i < r@.len() ==> (#[trigger] r@[i]).0@ == self@[i].0 && r@[i].1@ == self@[i].1,
    {
        map_list(&self.properties)
    }

    /// The declarations as CSS text: `name: value;` and a line break for each.
    pub fn to_css_string(&self) -> (r: String)
        ensures
            r@ == css_text(self@),
    {
        let list = map_list(&self.properties);
        let ghost es = self@;
        let mut css = String::new();
        let mut i: usize = 0;
        while i < list.len()
            invariant
                i <= list@.len(),
                list@.len() == es.len(),
                forall|k: int| 0 <= k < list@.len() ==> (#[trigger] list@[k]).0@ == es[k].0 && list@[k].1@ == es[k].1,
                css@ == css_text(es.take(i as int)),
            decreases list.len() - i,
        {
            assert(es.take(i + 1).drop_last() =~= es.take(i as int));
            css.append(list[i].0.as_str());
            css.append(": ");
            css.append(list[i].1.as_str());
            css.append(";\n");
            i = i + 1;
        }
        assert(es.take(i as int) =~= es);
        css
    }
}

impl Default for InlineStyle {
    /// No declaration.
    fn default() -> (r: InlineStyle)
        ensures
            r@ == Seq::<(Seq<char>, Seq<char>)>::empty(),
    {
        InlineStyle { properties: new_map() }
    }
}

impl PartialEq for InlineStyle {
    fn eq(&self, other: &Self) -> (r: bool) {
        let a = map_list(&self.properties);
        let b = map_list(&other.properties);
        if a.len() != b.len() {
            return false;
        }
        let mut i: usize = 0;
        while i < a.len()
            invariant
                i <= a@.len(),
                a@.len() == b@.len(),
                a@.len() == self@.len(),
                b@.len() == other@.len(),
                forall|k: int| 0 <= k < a@.len() ==> (#[trigger] a@[k]).0@ == self@[k].0 && a@[k].1@ == self@[k].1,
                forall|k: int| 0 <= k < b@.len() ==> (#[trigger] b@[k]).0@ == other@[k].0 && b@[k].1@ == other@[k].1,
                forall|k: int| 0 <= k < i ==> self@[k] == other@[k],
            decreases a.len() - i,
        {
            if a[i].0 != b[i].0 || a[i].1 != b[i].1 {
                assert(self@[i as int] != other@[i as int]);
                return false;
            }
            i = i + 1;
        }
        assert(self@ =~= other@);
        true
    }
}

impl vstd::std_specs::cmp::PartialEqSpecImpl for InlineStyle {
    open spec fn obeys_eq_spec() -> bool {
        true
    }

    open spec fn eq_spec(&self, other: &InlineStyle) -> bool {
        self@ == other@
    }
}

} // verus!
