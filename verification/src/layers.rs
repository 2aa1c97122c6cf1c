//! Cascade layers (`@layer`): parsing of dotted layer names and the ordered
//! hierarchy that decides which layer wins.

use vstd::prelude::*;

verus! {

/// Returns whether two string slices hold the same characters.
pub fn str_equal(a: &str, b: &str) -> (r: bool)
    ensures
        r == (a@ == b@),
{
    let a_owned = a.to_owned();
    let b_owned = b.to_owned();
    a_owned == b_owned
}

/// The characters of each string slice of `v`.
pub open spec fn str_views(v: Seq<&str>) -> Seq<Seq<char>> {
    Seq::new(v.len(), |i: int| v[i]@)
}

/// Parents of a layer name, looking only at its first `n` characters:
/// the prefix that ends just before each `.`, in order.
pub open spec fn parents_upto(s: Seq<char>, n: int) -> Seq<Seq<char>>
    decreases n,
{
    if n <= 0 {
        Seq::empty()
    } else if s[n - 1] == '.' {
        parents_upto(s, n - 1).push(s.take(n - 1))
    } else {
        parents_upto(s, n - 1)
    }
}

/// All parents of the dotted layer name `s`: `"a.b.c"` has parents `"a"` and `"a.b"`.
pub open spec fn layer_parents(s: Seq<char>) -> Seq<Seq<char>> {
    parents_upto(s, s.len() as int)
}

/// Index where the last segment of `s` starts, looking at its first `n` characters.
pub open spec fn name_start_upto(s: Seq<char>, n: int) -> int
    decreases n,
{
    if n <= 0 {
        0
    } else if s[n - 1] == '.' {
        n
    } else {
        name_start_upto(s, n - 1)
    }
}

/// The last segment of the dotted layer name `s`: `"a.b.c"` has name `"c"`.
pub open spec fn layer_local_name(s: Seq<char>) -> Seq<char> {
    s.skip(name_start_upto(s, s.len() as int))
}

/// A layer name whose dot-separated segments are all non-empty.
pub open spec fn valid_layer_name(s: Seq<char>) -> bool {
    &&& s.len() > 0
    &&& s[0] != '.'
    &&& s[s.len() - 1] != '.'
    &&& forall|i: int| 0 <= i < s.len() - 1 && #[trigger] s[i] == '.' ==> s[i + 1] != '.'
}

/// A dotted layer name split into its parents and its own last segment.
#[derive(Debug)]
pub struct ParsedLayer<'a> {
    /// Every parent layer, outermost first.
    pub parents: Vec<&'a str>,
    /// The last segment of the name.
    pub name: &'a str,
}

impl<'a> ParsedLayer<'a> {
    /// Splits `full_name` at each `.`.
    pub fn parse(full_name: &'a str) -> (r: ParsedLayer<'a>)
        requires
            layer_local_name(full_name@).len() > 0,
        ensures
            str_views(r.parents@) == layer_parents(full_name@),
            r.name@ == layer_local_name(full_name@),
    {
        let len = full_name.unicode_len();
        let mut parents: Vec<&'a str> = Vec::new();
        let mut consumed: usize = 0;
        let mut i: usize = 0;
        while i < len
            invariant
                len == full_name@.len(),
                i <= len,
                str_views(parents@) == parents_upto(full_name@, i as int),
                consumed as int == name_start_upto(full_name@, i as int),
            decreases len - i,
        {
            let c = full_name.get_char(i);
            if c == '.' {
                let parent = full_name.substring_char(0, i);
                parents.push(parent);
                consumed = i + 1;
            }
            i = i + 1;
            assert(str_views(parents@) =~= parents_upto(full_name@, i as int));
        }
        proof {
            lemma_name_start_bounds(full_name@, len as int);
        }
        let name = full_name.substring_char(consumed, len);
        ParsedLayer { parents, name }
    }

    /// Whether the layer is nested inside another one.
    pub fn has_parents(&self) -> (r: bool)
        ensures
            r == (self.parents@.len() > 0),
    {
        !self.parents.is_empty()
    }
}

proof fn lemma_name_start_bounds(s: Seq<char>, n: int)
    requires
        0 <= n <= s.len(),
    ensures
        0 <= name_start_upto(s, n) <= n,
    decreases n,
{
    if n > 0 {
        lemma_name_start_bounds(s, n - 1);
    }
}

} // verus!

verus! {

/// The innermost parent of a nested layer name: `"a.b.c"` has parent `"a.b"`.
pub open spec fn immediate_parent(s: Seq<char>) -> Seq<char> {
    layer_parents(s).last()
}

/// The ordered list of layers after `n` has been defined in `l`.
///
/// Defining an empty or already defined name changes nothing. A top-level
/// layer goes to the end. A nested layer first has its parents defined, then
/// goes right before its immediate parent, so it ranks below it.
pub open spec fn define_spec(l: Seq<Seq<char>>, n: Seq<char>) -> Seq<Seq<char>>
    decreases n.len() + 1, 0int,
{
    if n.len() == 0 || l.contains(n) {
        l
    } else {
        let ps = layer_parents(n);
        if ps.len() == 0 {
            l.push(n)
        } else {
            insert_before(define_parents_spec(l, ps, n.len() as int), ps.last(), n)
        }
    }
}

/// Puts `n` right before `p` in `l`, or at the end when `p` is absent.
pub open spec fn insert_before(l: Seq<Seq<char>>, p: Seq<char>, n: Seq<char>) -> Seq<Seq<char>> {
    if l.contains(p) {
        l.insert(l.index_of(p), n)
    } else {
        l.push(n)
    }
}

proof fn lemma_insert_before_contains(l: Seq<Seq<char>>, p: Seq<char>, n: Seq<char>, x: Seq<char>)
    ensures
        insert_before(l, p, n).contains(x) <==> (l.contains(x) || x == n),
{
    if l.contains(p) {
        lemma_insert_contains(l, l.index_of(p), n, x);
    } else {
        if l.push(n).contains(x) {
            let k = choose|k: int| 0 <= k < l.push(n).len() && l.push(n)[k] == x;
            if k < l.len() {
                assert(l[k] == x);
            }
        }
        if l.contains(x) {
            let k = choose|k: int| 0 <= k < l.len() && l[k] == x;
            assert(l.push(n)[k] == x);
        }
        assert(l.push(n)[l.len() as int] == n);
    }
}

/// Defines, in order, every name of `ps` that is shorter than `m`.
pub open spec fn define_parents_spec(l: Seq<Seq<char>>, ps: Seq<Seq<char>>, m: int) -> Seq<
    Seq<char>,
>
    decreases m, ps.len(),
{
    if ps.len() == 0 {
        l
    } else if ps.last().len() < m {
        define_spec(define_parents_spec(l, ps.drop_last(), m), ps.last())
    } else {
        define_parents_spec(l, ps.drop_last(), m)
    }
}

/// Well-formed list of layers: no name twice, every name valid, every parent
/// of a nested layer present, and every nested layer ranked below its parent.
pub open spec fn layers_wf(l: Seq<Seq<char>>) -> bool {
    &&& l.no_duplicates()
    &&& forall|i: int| 0 <= i < l.len() ==> valid_layer_name(#[trigger] l[i])
    &&& forall|i: int|
        0 <= i < l.len() && layer_parents(#[trigger] l[i]).len() > 0 ==> {
            let p = immediate_parent(l[i]);
            exists|j: int| i < j < l.len() && l[j] == p
        }
}

/// Priority of a layer: its index, and the length of the list for the
/// implicit unnamed layer, which always wins.
pub open spec fn layer_priority(l: Seq<Seq<char>>, n: Seq<char>) -> int {
    if n.len() == 0 {
        l.len() as int
    } else {
        l.index_of(n)
    }
}

proof fn lemma_parents_shape(s: Seq<char>, n: int)
    requires
        0 <= n <= s.len(),
    ensures
        forall|x: Seq<char>|
            #[trigger] parents_upto(s, n).contains(x) ==> exists|k: int|
                0 <= k < n && s[k] == '.' && x == s.take(k),
    decreases n,
{
    if n > 0 {
        lemma_parents_shape(s, n - 1);
        let prev = parents_upto(s, n - 1);
        assert forall|x: Seq<char>| #[trigger] parents_upto(s, n).contains(x) implies exists|k: int|
            0 <= k < n && s[k] == '.' && x == s.take(k) by {
            if prev.contains(x) {
                let k = choose|k: int| 0 <= k < n - 1 && s[k] == '.' && x == s.take(k);
                assert(0 <= k < n && s[k] == '.' && x == s.take(k));
            } else {
                assert(s[n - 1] == '.');
                let i = choose|i: int| 0 <= i < parents_upto(s, n).len() && parents_upto(s, n)[i] == x;
                assert(i == prev.len());
                assert(x == s.take(n - 1));
            }
        }
    }
}

/// Every parent of a valid layer name is itself a valid, strictly shorter name.
pub proof fn lemma_parents_valid(s: Seq<char>)
    requires
        valid_layer_name(s),
    ensures
        forall|x: Seq<char>| #[trigger]
            layer_parents(s).contains(x) ==> valid_layer_name(x) && x.len() < s.len(),
{
    lemma_parents_shape(s, s.len() as int);
    assert forall|x: Seq<char>| #[trigger] layer_parents(s).contains(x) implies valid_layer_name(x)
        && x.len() < s.len() by {
        let k = choose|k: int| 0 <= k < s.len() && s[k] == '.' && x == s.take(k);
        assert(k > 0);
        assert(s[k - 1] != '.');
        assert forall|i: int| 0 <= i < x.len() - 1 && #[trigger] x[i] == '.' implies x[i + 1] != '.' by {
            assert(s[i] == '.');
        }
    }
}

proof fn lemma_no_parents_name(s: Seq<char>, n: int)
    requires
        0 <= n <= s.len(),
        parents_upto(s, n).len() == 0,
    ensures
        name_start_upto(s, n) == 0,
    decreases n,
{
    if n > 0 {
        if s[n - 1] == '.' {
            assert(parents_upto(s, n).len() == parents_upto(s, n - 1).len() + 1);
        } else {
            lemma_no_parents_name(s, n - 1);
        }
    }
}

/// A valid layer name has a non-empty last segment.
proof fn lemma_valid_local_name(s: Seq<char>)
    requires
        valid_layer_name(s),
    ensures
        layer_local_name(s).len() > 0,
{
    lemma_name_start_bounds(s, s.len() - 1);
}

proof fn lemma_insert_contains<A>(s: Seq<A>, i: int, a: A, x: A)
    requires
        0 <= i <= s.len(),
    ensures
        s.insert(i, a).contains(x) <==> (s.contains(x) || x == a),
{
    s.insert_ensures(i, a);
    let t = s.insert(i, a);
    if s.contains(x) {
        let k = choose|k: int| 0 <= k < s.len() && s[k] == x;
        if k < i {
            assert(t[k] == x);
        } else {
            assert(t[k + 1] == x);
        }
    }
    if x == a {
        assert(t[i] == a);
    }
    if t.contains(x) {
        let k = choose|k: int| 0 <= k < t.len() && t[k] == x;
        if k < i {
            assert(s[k] == x);
        } else if k > i {
            assert(s[k - 1] == x);
        }
    }
}

/// A defined non-empty name is present afterwards.
pub proof fn lemma_define_contains(l: Seq<Seq<char>>, n: Seq<char>)
    requires
        n.len() > 0,
    ensures
        define_spec(l, n).contains(n),
{
    if !l.contains(n) {
        let ps = layer_parents(n);
        if ps.len() == 0 {
            assert(l.push(n)[l.len() as int] == n);
        } else {
            lemma_insert_before_contains(define_parents_spec(l, ps, n.len() as int), ps.last(), n, n);
        }
    }
}

/// Defining only adds names that are no longer than the defined one.
proof fn lemma_define_bounds(l: Seq<Seq<char>>, n: Seq<char>)
    ensures
        forall|x: Seq<char>| #[trigger]
            define_spec(l, n).contains(x) ==> l.contains(x) || x.len() <= n.len(),
    decreases n.len() + 1, 0int,
{
    if n.len() == 0 || l.contains(n) {
    } else {
        let ps = layer_parents(n);
        if ps.len() == 0 {
            assert forall|x: Seq<char>| #[trigger] define_spec(l, n).contains(x) implies l.contains(x)
                || x.len() <= n.len() by {
                let k = choose|k: int| 0 <= k < l.push(n).len() && l.push(n)[k] == x;
                if k < l.len() {
                    assert(l[k] == x);
                }
            }
        } else {
            let m = n.len() as int;
            let l1 = define_parents_spec(l, ps, m);
            lemma_define_parents_bounds(l, ps, m);
            assert forall|x: Seq<char>| #[trigger] define_spec(l, n).contains(x) implies l.contains(x)
                || x.len() <= n.len() by {
                lemma_insert_before_contains(l1, ps.last(), n, x);
            }
        }
    }
}

proof fn lemma_define_parents_bounds(l: Seq<Seq<char>>, ps: Seq<Seq<char>>, m: int)
    ensures
        forall|x: Seq<char>| #[trigger]
            define_parents_spec(l, ps, m).contains(x) ==> l.contains(x) || x.len() < m,
    decreases m, ps.len(),
{
    if ps.len() == 0 {
    } else if ps.last().len() < m {
        let l0 = define_parents_spec(l, ps.drop_last(), m);
        lemma_define_parents_bounds(l, ps.drop_last(), m);
        lemma_define_bounds(l0, ps.last());
        assert forall|x: Seq<char>| #[trigger] define_parents_spec(l, ps, m).contains(x) implies l.contains(x)
            || x.len() < m by {
            assert(define_parents_spec(l, ps, m) == define_spec(l0, ps.last()));
            if l0.contains(x) {
            }
        }
    } else {
        lemma_define_parents_bounds(l, ps.drop_last(), m);
        assert(define_parents_spec(l, ps, m) == define_parents_spec(l, ps.drop_last(), m));
    }
}

/// Layers defined in order, with the unnamed layer always ranked last.
#[derive(Debug)]
pub struct LayersHierarchy {
    inner: Vec<String>,
}

impl View for LayersHierarchy {
    type V = Seq<Seq<char>>;

    closed spec fn view(&self) -> Seq<Seq<char>> {
        self.inner@.map_values(|s: String| s@)
    }
}

impl LayersHierarchy {
    /// The hierarchy's invariant, kept by every method.
    #[verifier::type_invariant]
    pub open spec fn wf(&self) -> bool {
        layers_wf(self@)
    }

    /// Creates an empty hierarchy.
    pub fn new() -> (r: LayersHierarchy)
        ensures
            r@ == Seq::<Seq<char>>::empty(),
    {
        let r = LayersHierarchy { inner: Vec::new() };
        assert(r@ =~= Seq::<Seq<char>>::empty());
        r
    }

    /// Whether `full_name` has been defined.
    pub fn is_layer_defined(&self, full_name: &str) -> (r: bool)
        ensures
            r == self@.contains(full_name@),
    {
        let mut i: usize = 0;
        while i < self.inner.len()
            invariant
                i <= self.inner@.len(),
                forall|k: int| 0 <= k < i ==> self@[k] != full_name@,
            decreases self.inner@.len() - i,
        {
            if str_equal(self.inner[i].as_str(), full_name) {
                assert(self@[i as int] == full_name@);
                return true;
            }
            i = i + 1;
        }
        false
    }

    /// Index of the layer called `full_name`.
    fn position(&self, full_name: &str) -> (r: usize)
        requires
            self@.contains(full_name@),
        ensures
            r < self@.len(),
            self@[r as int] == full_name@,
            r as int == self@.index_of(full_name@),
    {
        proof {
            use_type_invariant(self);
        }
        let mut i: usize = 0;
        while i < self.inner.len()
            invariant
                i <= self.inner@.len(),
                forall|k: int| 0 <= k < i ==> self@[k] != full_name@,
                self@.contains(full_name@),
                self.wf(),
            decreases self.inner@.len() - i,
        {
            if str_equal(self.inner[i].as_str(), full_name) {
                let ghost j = self@.index_of(full_name@);
                assert(self@[i as int] == full_name@);
                assert(0 <= j < self@.len() && self@[j] == full_name@);
                assert(j == i);
                return i;
            }
            i = i + 1;
        }
        assert(false);
        0
    }
}


proof fn lemma_push_wf(l: Seq<Seq<char>>, n: Seq<char>)
    requires
        layers_wf(l),
        valid_layer_name(n),
        layer_parents(n).len() == 0,
        !l.contains(n),
    ensures
        layers_wf(l.push(n)),
{
    let t = l.push(n);
    assert forall|i: int, j: int| 0 <= i < t.len() && 0 <= j < t.len() && i != j implies t[i] != t[j] by {
        if i < l.len() && j < l.len() {
        } else if i < l.len() {
            assert(l.contains(l[i]));
        } else {
            assert(l.contains(l[j]));
        }
    }
    assert forall|i: int| 0 <= i < t.len() && layer_parents(#[trigger] t[i]).len() > 0 implies {
        let p = immediate_parent(t[i]);
        exists|j: int| i < j < t.len() && t[j] == p
    } by {
        assert(i < l.len());
        let p = immediate_parent(l[i]);
        let j = choose|j: int| i < j < l.len() && l[j] == p;
        assert(t[j] == p);
    }
}

proof fn lemma_insert_wf(l: Seq<Seq<char>>, pos: int, n: Seq<char>)
    requires
        layers_wf(l),
        0 <= pos < l.len(),
        valid_layer_name(n),
        layer_parents(n).len() > 0,
        l[pos] == immediate_parent(n),
        !l.contains(n),
    ensures
        layers_wf(l.insert(pos, n)),
{
    l.insert_ensures(pos, n);
    let t = l.insert(pos, n);
    assert forall|i: int, j: int| 0 <= i < t.len() && 0 <= j < t.len() && i != j implies t[i] != t[j] by {
        let a = if i < pos { i } else { i - 1 };
        let b = if j < pos { j } else { j - 1 };
        if i == pos {
            assert(l.contains(l[b]));
        } else if j == pos {
            assert(l.contains(l[a]));
        } else {
            assert(t[i] == l[a]);
            assert(t[j] == l[b]);
        }
    }
    assert forall|i: int| 0 <= i < t.len() implies valid_layer_name(#[trigger] t[i]) by {
        if i < pos {
            assert(t[i] == l[i]);
        } else if i > pos {
            assert(t[i] == l[i - 1]);
        }
    }
    assert forall|i: int| 0 <= i < t.len() && layer_parents(#[trigger] t[i]).len() > 0 implies {
        let p = immediate_parent(t[i]);
        exists|j: int| i < j < t.len() && t[j] == p
    } by {
        if i == pos {
            assert(t[pos + 1] == l[pos]);
        } else {
            let a = if i < pos { i } else { i - 1 };
            assert(t[i] == l[a]);
            let p = immediate_parent(l[a]);
            let j = choose|j: int| a < j < l.len() && l[j] == p;
            if j < pos {
                assert(t[j] == p);
            } else {
                assert(t[j + 1] == p);
            }
        }
    }
}

proof fn lemma_define_parents_contains_last(l: Seq<Seq<char>>, ps: Seq<Seq<char>>, m: int)
    requires
        ps.len() > 0,
        0 < ps.last().len() < m,
    ensures
        define_parents_spec(l, ps, m).contains(ps.last()),
{
    lemma_define_contains(define_parents_spec(l, ps.drop_last(), m), ps.last());
}

impl LayersHierarchy {
    /// Defines `full_name` and, first, every parent layer of it.
    ///
    /// The empty name is the implicit unnamed layer and is never stored;
    /// names already defined are left where they are. Afterwards the name and
    /// each of its parents are listed, the name before each parent; every
    /// layer listed before stays, in the same relative order; nothing else
    /// is added.
    pub fn define_layer(&mut self, full_name: &str)
        requires
            full_name@.len() == 0 || valid_layer_name(full_name@),
        ensures
            final(self)@ == define_spec(old(self)@, full_name@),
            full_name@.len() > 0 ==> final(self)@.contains(full_name@),
            forall|p: Seq<char>| #[trigger]
                layer_parents(full_name@).contains(p) ==> appears_before(final(self)@, full_name@, p),
            forall|x: Seq<char>| #[trigger] old(self)@.contains(x) ==> final(self)@.contains(x),
            forall|x: Seq<char>, y: Seq<char>| #[trigger]
                appears_before(old(self)@, x, y) ==> appears_before(final(self)@, x, y),
            forall|x: Seq<char>| #[trigger]
                final(self)@.contains(x) ==> old(self)@.contains(x) || x == full_name@
                    || layer_parents(full_name@).contains(x),
        decreases full_name@.len(),
    {
        proof {
            use_type_invariant(&*self);
        }
        if full_name.is_empty() {
            proof {
                lemma_define_facts(self@, full_name@);
            }
            return;
        }
        if self.is_layer_defined(full_name) {
            proof {
                lemma_define_facts(self@, full_name@);
            }
            return;
        }
        proof {
            lemma_valid_local_name(full_name@);
            lemma_parents_valid(full_name@);
        }
        let layer = ParsedLayer::parse(full_name);
        let ghost n = full_name@;
        let ghost ps = layer_parents(n);
        let ghost m = n.len() as int;
        let ghost start = self@;
        if !layer.has_parents() {
            proof {
                lemma_no_parents_name(n, m);
                assert(n.skip(0) =~= n);
            }
            let owned = layer.name.to_owned();
            let mut inner: Vec<String> = Vec::new();
            std::mem::swap(&mut inner, &mut self.inner);
            inner.push(owned);
            proof {
                assert(inner@.map_values(|s: String| s@) =~= start.push(n));
                lemma_push_wf(start, n);
            }
            self.inner = inner;
            proof {
                lemma_define_facts(start, n);
            }
        } else {
            let count = layer.parents.len();
            let mut j: usize = 0;
            while j < count
                invariant
                    self.wf(),
                    j <= count,
                    count == ps.len(),
                    str_views(layer.parents@) == ps,
                    self@ == define_parents_spec(start, ps.take(j as int), m),
                    forall|x: Seq<char>| #[trigger]
                        ps.contains(x) ==> valid_layer_name(x) && x.len() < m,
                    m == n.len(),
                    n == full_name@,
                decreases count - j,
            {
                let parent = layer.parents[j];
                proof {
                    assert(ps[j as int] == parent@);
                    assert(ps.contains(parent@));
                }
                let ghost before = self@;
                self.define_layer(parent);
                proof {
                    use_type_invariant(&*self);
                    let t = ps.take(j + 1);
                    assert(t.drop_last() =~= ps.take(j as int));
                    assert(t.last() == parent@);
                }
                j = j + 1;
            }
            proof {
                assert(ps.take(count as int) =~= ps);
                assert(ps.contains(ps.last()));
                lemma_define_parents_contains_last(start, ps, m);
                lemma_define_parents_bounds(start, ps, m);
            }
            let pos = self.find_insert_position(&layer);
            let ghost l1 = self@;
            let owned = full_name.to_owned();
            let mut inner: Vec<String> = Vec::new();
            std::mem::swap(&mut inner, &mut self.inner);
            inner.insert(pos, owned);
            proof {
                assert(inner@.map_values(|s: String| s@) =~= l1.insert(pos as int, n));
                lemma_insert_wf(l1, pos as int, n);
            }
            self.inner = inner;
            proof {
                lemma_define_facts(start, n);
            }
        }
    }

    /// Gets the layer priority; a higher number means a higher priority.
    pub fn get_layer_priority(&self, full_name: &str) -> (r: usize)
        requires
            full_name@.len() == 0 || self@.contains(full_name@),
        ensures
            r as int == layer_priority(self@, full_name@),
            full_name@.len() > 0 ==> r < self@.len() && self@[r as int] == full_name@,
    {
        if full_name.is_empty() {
            return self.inner.len();
        }
        self.position(full_name)
    }

    /// Compares two layers by priority.
    pub fn cmp_layers(&self, a: &str, b: &str) -> (r: std::cmp::Ordering)
        requires
            a@.len() == 0 || self@.contains(a@),
            b@.len() == 0 || self@.contains(b@),
        ensures
            r == (if layer_priority(self@, a@) < layer_priority(self@, b@) {
                std::cmp::Ordering::Less
            } else if layer_priority(self@, a@) == layer_priority(self@, b@) {
                std::cmp::Ordering::Equal
            } else {
                std::cmp::Ordering::Greater
            }),
    {
        let pa = self.get_layer_priority(a);
        let pb = self.get_layer_priority(b);
        if pa < pb {
            std::cmp::Ordering::Less
        } else if pa == pb {
            std::cmp::Ordering::Equal
        } else {
            std::cmp::Ordering::Greater
        }
    }

    /// Position where a nested layer is inserted: the index of its immediate parent.
    fn find_insert_position(&self, layer: &ParsedLayer) -> (r: usize)
        requires
            layer.parents@.len() > 0,
            self@.contains(layer.parents@.last()@),
        ensures
            r < self@.len(),
            self@[r as int] == layer.parents@.last()@,
            r as int == self@.index_of(layer.parents@.last()@),
    {
        let parent = layer.parents[layer.parents.len() - 1];
        self.position(parent)
    }

    /// All layers, lowest priority first.
    pub fn get_layers(&self) -> (r: Vec<&str>)
        ensures
            str_views(r@) == self@,
    {
        let mut r: Vec<&str> = Vec::new();
        let mut i: usize = 0;
        while i < self.inner.len()
            invariant
                i <= self.inner@.len(),
                str_views(r@) == self@.take(i as int),
                r@.len() == i,
                self@.len() == self.inner@.len(),
            decreases self.inner@.len() - i,
        {
            let ghost before = r@;
            let item = self.inner[i].as_str();
            r.push(item);
            assert(item@ == self@[i as int]);
            i = i + 1;
            assert forall|k: int| 0 <= k < i implies #[trigger] str_views(r@)[k] == self@.take(i as int)[k] by {
                if k < i - 1 {
                    assert(r@[k] == before[k]);
                    assert(str_views(before)[k] == self@.take(i - 1)[k]);
                } else {
                    assert(r@[k] == item);
                }
            }
            assert(str_views(r@) =~= self@.take(i as int));
        }
        assert(self@.take(i as int) =~= self@);
        r
    }
}

impl Default for LayersHierarchy {
    fn default() -> (r: LayersHierarchy)
        ensures
            r@ == Seq::<Seq<char>>::empty(),
    {
        LayersHierarchy::new()
    }
}


/// `x` appears somewhere before `y` in `l`.
pub open spec fn appears_before(l: Seq<Seq<char>>, x: Seq<char>, y: Seq<char>) -> bool {
    exists|i: int, j: int| 0 <= i < j < l.len() && l[i] == x && l[j] == y
}

proof fn lemma_insert_keeps_before(l: Seq<Seq<char>>, k: int, a: Seq<char>, x: Seq<char>, y: Seq<char>)
    requires
        0 <= k <= l.len(),
        appears_before(l, x, y),
    ensures
        appears_before(l.insert(k, a), x, y),
{
    l.insert_ensures(k, a);
    let t = l.insert(k, a);
    let (i, j) = choose|i: int, j: int| 0 <= i < j < l.len() && l[i] == x && l[j] == y;
    let i2 = if i < k { i } else { i + 1 };
    let j2 = if j < k { j } else { j + 1 };
    assert(t[i2] == x && t[j2] == y);
}

proof fn lemma_insert_before_keeps(l: Seq<Seq<char>>, p: Seq<char>, n: Seq<char>, x: Seq<char>, y: Seq<char>)
    requires
        appears_before(l, x, y),
    ensures
        appears_before(insert_before(l, p, n), x, y),
{
    if l.contains(p) {
        lemma_insert_keeps_before(l, l.index_of(p), n, x, y);
    } else {
        lemma_insert_keeps_before(l, l.len() as int, n, x, y);
        assert(l.insert(l.len() as int, n) =~= l.push(n));
    }
}

/// Defining a layer keeps every layer defined before, in the same relative order.
pub proof fn lemma_define_keeps_order(l: Seq<Seq<char>>, n: Seq<char>, x: Seq<char>, y: Seq<char>)
    requires
        appears_before(l, x, y),
    ensures
        appears_before(define_spec(l, n), x, y),
    decreases n.len() + 1, 0int,
{
    if n.len() == 0 || l.contains(n) {
    } else {
        let ps = layer_parents(n);
        if ps.len() == 0 {
            lemma_insert_keeps_before(l, l.len() as int, n, x, y);
            assert(l.insert(l.len() as int, n) =~= l.push(n));
        } else {
            let m = n.len() as int;
            lemma_define_parents_keeps_order(l, ps, m, x, y);
            lemma_insert_before_keeps(define_parents_spec(l, ps, m), ps.last(), n, x, y);
        }
    }
}

proof fn lemma_define_parents_keeps_order(
    l: Seq<Seq<char>>,
    ps: Seq<Seq<char>>,
    m: int,
    x: Seq<char>,
    y: Seq<char>,
)
    requires
        appears_before(l, x, y),
    ensures
        appears_before(define_parents_spec(l, ps, m), x, y),
    decreases m, ps.len(),
{
    if ps.len() == 0 {
    } else if ps.last().len() < m {
        lemma_define_parents_keeps_order(l, ps.drop_last(), m, x, y);
        lemma_define_keeps_order(define_parents_spec(l, ps.drop_last(), m), ps.last(), x, y);
    } else {
        lemma_define_parents_keeps_order(l, ps.drop_last(), m, x, y);
    }
}

/// Defining a layer keeps every layer defined before.
pub proof fn lemma_define_keeps_layers(l: Seq<Seq<char>>, n: Seq<char>, x: Seq<char>)
    requires
        l.contains(x),
    ensures
        define_spec(l, n).contains(x),
    decreases n.len() + 1, 0int,
{
    if n.len() == 0 || l.contains(n) {
    } else {
        let ps = layer_parents(n);
        if ps.len() == 0 {
            let k = choose|k: int| 0 <= k < l.len() && l[k] == x;
            assert(l.push(n)[k] == x);
        } else {
            let m = n.len() as int;
            lemma_define_parents_keeps_layers(l, ps, m, x);
            lemma_insert_before_contains(define_parents_spec(l, ps, m), ps.last(), n, x);
        }
    }
}

proof fn lemma_define_parents_keeps_layers(l: Seq<Seq<char>>, ps: Seq<Seq<char>>, m: int, x: Seq<char>)
    requires
        l.contains(x),
    ensures
        define_parents_spec(l, ps, m).contains(x),
    decreases m, ps.len(),
{
    if ps.len() == 0 {
    } else if ps.last().len() < m {
        lemma_define_parents_keeps_layers(l, ps.drop_last(), m, x);
        lemma_define_keeps_layers(define_parents_spec(l, ps.drop_last(), m), ps.last(), x);
    } else {
        lemma_define_parents_keeps_layers(l, ps.drop_last(), m, x);
    }
}

/// Defining the same layer twice is the same as defining it once.
pub proof fn lemma_define_idempotent(l: Seq<Seq<char>>, n: Seq<char>)
    ensures
        define_spec(define_spec(l, n), n) == define_spec(l, n),
{
    if n.len() > 0 {
        lemma_define_contains(l, n);
    }
}

/// The unnamed layer outranks every named layer.
pub proof fn lemma_unnamed_layer_highest(l: Seq<Seq<char>>, n: Seq<char>)
    requires
        layers_wf(l),
        n.len() > 0,
        l.contains(n),
    ensures
        layer_priority(l, n) < layer_priority(l, Seq::<char>::empty()),
        0 <= layer_priority(l, n),
{
}

/// A nested layer ranks below its immediate parent.
pub proof fn lemma_nested_below_parent(l: Seq<Seq<char>>, n: Seq<char>)
    requires
        layers_wf(l),
        l.contains(n),
        layer_parents(n).len() > 0,
    ensures
        l.contains(immediate_parent(n)),
        layer_priority(l, n) < layer_priority(l, immediate_parent(n)),
{
    let i = l.index_of(n);
    assert(0 <= i < l.len() && l[i] == n);
    let p = immediate_parent(n);
    let j = choose|j: int| i < j < l.len() && l[j] == p;
    assert(l.contains(p));
    lemma_parents_valid(l[j]);
    assert(p.len() > 0) by {
        assert(valid_layer_name(l[j]));
    }
    let j2 = l.index_of(p);
    assert(0 <= j2 < l.len() && l[j2] == p);
    assert(j2 == j);
}

/// A new top-level layer outranks every named layer defined before it:
/// layers defined first rank lowest.
pub proof fn lemma_new_top_layer_ranks_last(l: Seq<Seq<char>>, n: Seq<char>, x: Seq<char>)
    requires
        l.no_duplicates(),
        n.len() > 0,
        !l.contains(n),
        layer_parents(n).len() == 0,
        x.len() > 0,
        l.contains(x),
    ensures
        define_spec(l, n) == l.push(n),
        layer_priority(define_spec(l, n), x) < layer_priority(define_spec(l, n), n),
        layer_priority(define_spec(l, n), n) == l.len(),
{
    let m = l.push(n);
    assert(m[l.len() as int] == n);
    assert(m.contains(n));
    let i = m.index_of(n);
    assert(0 <= i < m.len() && m[i] == n);
    if i < l.len() {
        assert(l[i] == n);
        assert(l.contains(n));
    }
    let k = choose|k: int| 0 <= k < l.len() && l[k] == x;
    assert(m[k] == x);
    assert(m.contains(x));
    let j = m.index_of(x);
    assert(0 <= j < m.len() && m[j] == x);
    assert(x != n);
}

} // verus!

verus! {

proof fn lemma_parents_prefix(s: Seq<char>, k: int, j: int)
    requires
        0 <= j <= k <= s.len(),
    ensures
        parents_upto(s.take(k), j) == parents_upto(s, j),
    decreases j,
{
    if j > 0 {
        lemma_parents_prefix(s, k, j - 1);
        assert(s.take(k)[j - 1] == s[j - 1]);
        assert(s.take(k).take(j - 1) =~= s.take(j - 1));
    }
}

proof fn lemma_parents_last(s: Seq<char>, n: int)
    requires
        0 <= n <= s.len(),
        parents_upto(s, n).len() > 0,
    ensures
        ({
            let q = parents_upto(s, n).last();
            &&& q.len() < n
            &&& q == s.take(q.len() as int)
            &&& parents_upto(s, n) == parents_upto(s, q.len() as int).push(q)
        }),
    decreases n,
{
    if s[n - 1] != '.' {
        lemma_parents_last(s, n - 1);
    }
}

/// The parents of a nested layer are the parents of its immediate parent,
/// followed by that immediate parent.
pub proof fn lemma_parents_of_parent(s: Seq<char>)
    requires
        layer_parents(s).len() > 0,
    ensures
        layer_parents(s) == layer_parents(immediate_parent(s)).push(immediate_parent(s)),
        immediate_parent(s).len() < s.len(),
{
    let q = immediate_parent(s);
    lemma_parents_last(s, s.len() as int);
    lemma_parents_prefix(s, q.len() as int, q.len() as int);
}

/// The parents of a parent of `s` are parents of `s` too.
pub proof fn lemma_parents_closed(s: Seq<char>, p: Seq<char>, x: Seq<char>)
    requires
        layer_parents(s).contains(p),
        layer_parents(p).contains(x),
    ensures
        layer_parents(s).contains(x),
    decreases s.len(),
{
    lemma_parents_of_parent(s);
    let q = immediate_parent(s);
    let ps = layer_parents(s);
    let pq = layer_parents(q);
    let k = choose|k: int| 0 <= k < ps.len() && ps[k] == p;
    if k == ps.len() - 1 {
        let i = choose|i: int| 0 <= i < pq.len() && pq[i] == x;
        assert(ps[i] == x);
    } else {
        assert(pq[k] == p);
        lemma_parents_closed(q, p, x);
        let i = choose|i: int| 0 <= i < pq.len() && pq[i] == x;
        assert(ps[i] == x);
    }
}

/// In a well-formed list of layers every parent of a listed layer is listed
/// too, after it.
pub proof fn lemma_wf_parents_after(l: Seq<Seq<char>>, x: Seq<char>, p: Seq<char>)
    requires
        layers_wf(l),
        l.contains(x),
        layer_parents(x).contains(p),
    ensures
        appears_before(l, x, p),
    decreases x.len(),
{
    lemma_parents_of_parent(x);
    let q = immediate_parent(x);
    let i = choose|i: int| 0 <= i < l.len() && l[i] == x;
    assert(layer_parents(l[i]).len() > 0);
    let j = choose|j: int| i < j < l.len() && l[j] == q;
    if p == q {
        assert(appears_before(l, x, p));
    } else {
        let ps = layer_parents(x);
        let k = choose|k: int| 0 <= k < ps.len() && ps[k] == p;
        assert(layer_parents(q)[k] == p);
        assert(l.contains(q));
        lemma_wf_parents_after(l, q, p);
        let (a, b) = choose|a: int, b: int| 0 <= a < b < l.len() && l[a] == q && l[b] == p;
        assert(a == j);
        assert(appears_before(l, x, p));
    }
}

proof fn lemma_define_adds_only(l: Seq<Seq<char>>, n: Seq<char>)
    ensures
        forall|x: Seq<char>| #[trigger]
            define_spec(l, n).contains(x) ==> l.contains(x) || x == n || layer_parents(n).contains(x),
    decreases n.len() + 1, 0int,
{
    if n.len() == 0 || l.contains(n) {
    } else {
        let ps = layer_parents(n);
        if ps.len() == 0 {
            assert forall|x: Seq<char>| #[trigger] define_spec(l, n).contains(x) implies l.contains(x)
                || x == n || layer_parents(n).contains(x) by {
                let k = choose|k: int| 0 <= k < l.push(n).len() && l.push(n)[k] == x;
                if k < l.len() {
                    assert(l[k] == x);
                }
            }
        } else {
            let m = n.len() as int;
            assert forall|i: int| 0 <= i < ps.len() implies ps.contains(#[trigger] ps[i]) by {}
            assert forall|i: int, x: Seq<char>|
                0 <= i < ps.len() && #[trigger] layer_parents(ps[i]).contains(x) implies ps.contains(x) by {
                lemma_parents_closed(n, ps[i], x);
            }
            lemma_define_parents_adds_only(l, ps, m, ps);
            assert forall|x: Seq<char>| #[trigger] define_spec(l, n).contains(x) implies l.contains(x)
                || x == n || layer_parents(n).contains(x) by {
                lemma_insert_before_contains(define_parents_spec(l, ps, m), ps.last(), n, x);
            }
        }
    }
}

proof fn lemma_define_parents_adds_only(
    l: Seq<Seq<char>>,
    ps: Seq<Seq<char>>,
    m: int,
    allowed: Seq<Seq<char>>,
)
    requires
        forall|i: int| 0 <= i < ps.len() ==> allowed.contains(#[trigger] ps[i]),
        forall|i: int, x: Seq<char>|
            0 <= i < ps.len() && #[trigger] layer_parents(ps[i]).contains(x) ==> allowed.contains(x),
    ensures
        forall|x: Seq<char>| #[trigger]
            define_parents_spec(l, ps, m).contains(x) ==> l.contains(x) || allowed.contains(x),
    decreases m, ps.len(),
{
    if ps.len() == 0 {
    } else {
        let rest = ps.drop_last();
        assert forall|i: int| 0 <= i < rest.len() implies allowed.contains(#[trigger] rest[i]) by {
            assert(rest[i] == ps[i]);
        }
        assert forall|i: int, x: Seq<char>|
            0 <= i < rest.len() && #[trigger] layer_parents(rest[i]).contains(x) implies allowed.contains(x) by {
            assert(rest[i] == ps[i]);
        }
        lemma_define_parents_adds_only(l, rest, m, allowed);
        if ps.last().len() < m {
            let l0 = define_parents_spec(l, rest, m);
            lemma_define_adds_only(l0, ps.last());
            assert(allowed.contains(ps[ps.len() - 1]));
            assert forall|x: Seq<char>| #[trigger] define_parents_spec(l, ps, m).contains(x) implies l.contains(x)
                || allowed.contains(x) by {
                assert(define_parents_spec(l, ps, m) == define_spec(l0, ps.last()));
                if layer_parents(ps.last()).contains(x) {
                    assert(layer_parents(ps[ps.len() - 1]).contains(x));
                }
            }
        } else {
            assert(define_parents_spec(l, ps, m) == define_parents_spec(l, rest, m));
        }
    }
}

/// What defining `n` in a list that stays well formed guarantees: `n` and
/// each of its parents are listed, `n` before each parent; every earlier
/// layer stays, in the same relative order; nothing but `n` and its parents
/// is added.
proof fn lemma_define_facts(l: Seq<Seq<char>>, n: Seq<char>)
    requires
        layers_wf(define_spec(l, n)),
    ensures
        n.len() > 0 ==> define_spec(l, n).contains(n),
        forall|p: Seq<char>| #[trigger]
            layer_parents(n).contains(p) ==> appears_before(define_spec(l, n), n, p),
        forall|x: Seq<char>| #[trigger] l.contains(x) ==> define_spec(l, n).contains(x),
        forall|x: Seq<char>, y: Seq<char>| #[trigger]
            appears_before(l, x, y) ==> appears_before(define_spec(l, n), x, y),
        forall|x: Seq<char>| #[trigger]
            define_spec(l, n).contains(x) ==> l.contains(x) || x == n || layer_parents(n).contains(x),
{
    let d = define_spec(l, n);
    if n.len() > 0 {
        lemma_define_contains(l, n);
    } else {
        assert(layer_parents(n) =~= Seq::<Seq<char>>::empty());
    }
    assert forall|p: Seq<char>| #[trigger] layer_parents(n).contains(p) implies appears_before(d, n, p) by {
        if n.len() == 0 {
            assert(layer_parents(n).len() == 0);
        } else {
            lemma_wf_parents_after(d, n, p);
        }
    }
    assert forall|x: Seq<char>| #[trigger] l.contains(x) implies d.contains(x) by {
        lemma_define_keeps_layers(l, n, x);
    }
    assert forall|x: Seq<char>, y: Seq<char>| #[trigger] appears_before(l, x, y) implies appears_before(d, x, y) by {
        lemma_define_keeps_order(l, n, x, y);
    }
    lemma_define_adds_only(l, n);
}

} // verus!
