//! Building a style sheet: rulesets (blocks) and the selectors that point at
//! them, and the clean-up and checks done before the sheet is built.
//!
//! A selector points at a block by the block's index. The selector type `S`
//! is opaque here.

use vstd::prelude::*;
use crate::animations::properties::{AnimationProperties, AnimationProperty, AnimationPropertyId, TransitionPropertyId};
use crate::css::font_face::FontFaceSource;
use crate::layers::{define_spec, valid_layer_name, LayersHierarchy};

verus! {

/// A ruleset while the style sheet is built: its variables (name and value
/// tokens `V`), its properties `P`, and its animation and transition
/// declarations (timing functions `E`).
#[derive(Debug)]
pub struct BuilderBlock<V, P, E> {
    /// Variables defined by the ruleset.
    pub vars: Vec<(String, V)>,
    /// Properties.
    pub properties: Vec<P>,
    /// `transition-*` declarations.
    pub transition_properties: AnimationProperties<TransitionPropertyId, E>,
    /// `animation-*` declarations.
    pub animation_properties: AnimationProperties<AnimationPropertyId, E>,
}

impl<V, P, E> BuilderBlock<V, P, E> {
    /// Whether the ruleset declares nothing.
    pub open spec fn empty(&self) -> bool {
        &&& self.vars@.len() == 0
        &&& self.properties@.len() == 0
        &&& self.transition_properties.properties@.len() == 0
        &&& self.animation_properties.properties@.len() == 0
    }

    /// A ruleset that declares nothing.
    pub fn new() -> (r: Self)
        ensures
            r.empty(),
    {
        BuilderBlock {
            vars: Vec::new(),
            properties: Vec::new(),
            transition_properties: AnimationProperties { properties: Vec::new() },
            animation_properties: AnimationProperties { properties: Vec::new() },
        }
    }

    /// Whether the ruleset declares nothing.
    pub fn is_empty(&self) -> (r: bool)
        ensures
            r == self.empty(),
    {
        self.vars.len() == 0 && self.properties.len() == 0 && self.transition_properties.properties.len() == 0
            && self.animation_properties.properties.len() == 0
    }
}

/// Why a style sheet cannot be built.
#[derive(Debug, Clone, Copy, PartialEq, Eq, Structural)]
pub enum StyleSheetBuilderError {
    /// The block at this index has no selector.
    OrphanBlock(usize),
}

/// A font face a style sheet defines.
#[derive(Debug, Clone, PartialEq, Eq)]
pub struct StyleFontFace {
    /// Family name.
    pub font_family: String,
    /// Where the font comes from.
    pub source: FontFaceSource,
}

/// Blocks being built and the selectors pointing at them.
#[derive(Debug)]
pub struct StyleSheetBuilder<B, S> {
    /// Font faces, in the order they were registered.
    pub font_faces: Vec<StyleFontFace>,
    /// Order of the cascade layers.
    pub layers_hierarchy: LayersHierarchy,
    /// The blocks, by index.
    pub blocks: Vec<B>,
    /// Each selector and the index of the block it points at.
    pub css_selectors_to_blocks: Vec<(S, usize)>,
}

/// The blocks among the first `j` that are kept, in order.
pub open spec fn kept_prefix<B>(keep: spec_fn(B) -> bool, blocks: Seq<B>, j: int) -> Seq<B>
    decreases j,
{
    if j <= 0 {
        Seq::empty()
    } else if keep(blocks[j - 1]) {
        kept_prefix(keep, blocks, j - 1).push(blocks[j - 1])
    } else {
        kept_prefix(keep, blocks, j - 1)
    }
}

/// Number of blocks before index `j` that are kept: the new index of block `j`.
pub open spec fn kept_before<B>(keep: spec_fn(B) -> bool, blocks: Seq<B>, j: int) -> int {
    kept_prefix(keep, blocks, j).len() as int
}

/// Where a selector pointing at block `k` points once the blocks before
/// index `j` that are not kept are gone, if it remains.
pub open spec fn remap_id<B>(keep: spec_fn(B) -> bool, blocks: Seq<B>, j: int, k: int) -> Option<int> {
    if k < j {
        if keep(blocks[k]) {
            Some(kept_before(keep, blocks, k))
        } else {
            None
        }
    } else {
        Some(k - (j - kept_before(keep, blocks, j)))
    }
}

/// The selectors once the blocks before index `j` that are not kept are gone:
/// selectors of removed blocks go, the others point at the new index of their block.
pub open spec fn remapped_upto<B, S>(keep: spec_fn(B) -> bool, blocks: Seq<B>, j: int, sels: Seq<(S, usize)>) -> Seq<(S, usize)>
    decreases sels.len(),
{
    if sels.len() == 0 {
        Seq::empty()
    } else {
        let prev = remapped_upto(keep, blocks, j, sels.drop_last());
        match remap_id(keep, blocks, j, sels.last().1 as int) {
            Some(x) => prev.push((sels.last().0, x as usize)),
            None => prev,
        }
    }
}

/// The selectors once the block at index `id` is gone: its selectors go, those
/// of later blocks point one index lower.
pub open spec fn removed_selectors<S>(sels: Seq<(S, usize)>, id: int) -> Seq<(S, usize)>
    decreases sels.len(),
{
    if sels.len() == 0 {
        Seq::empty()
    } else {
        let prev = removed_selectors(sels.drop_last(), id);
        let (s, k) = sels.last();
        if k == id {
            prev
        } else if k > id {
            prev.push((s, (k - 1) as usize))
        } else {
            prev.push((s, k))
        }
    }
}

/// Whether a block declares something.
pub open spec fn non_empty<V, P, E>() -> spec_fn(BuilderBlock<V, P, E>) -> bool {
    |b: BuilderBlock<V, P, E>| !b.empty()
}

/// Every selector points at an existing block.
pub open spec fn selectors_valid<S>(sels: Seq<(S, usize)>, n: int) -> bool {
    forall|k: int| 0 <= k < sels.len() ==> #[trigger] sels[k].1 < n
}

/// Whether some selector points at block `i`.
pub open spec fn has_selector<S>(sels: Seq<(S, usize)>, i: int) -> bool {
    exists|k: int| 0 <= k < sels.len() && #[trigger] sels[k].1 == i
}

/// Every block kept is one the filter keeps.
pub proof fn lemma_kept_prefix_kept<B>(keep: spec_fn(B) -> bool, blocks: Seq<B>, j: int)
    ensures
        forall|k: int| 0 <= k < kept_prefix(keep, blocks, j).len() ==> keep(#[trigger] kept_prefix(keep, blocks, j)[k]),
    decreases j,
{
    if j > 0 {
        lemma_kept_prefix_kept(keep, blocks, j - 1);
        let prev = kept_prefix(keep, blocks, j - 1);
        if keep(blocks[j - 1]) {
            assert forall|k: int| 0 <= k < prev.push(blocks[j - 1]).len() implies keep(#[trigger] prev.push(blocks[j - 1])[k]) by {
                if k < prev.len() {
                    assert(prev.push(blocks[j - 1])[k] == prev[k]);
                }
            }
        }
    }
}

/// Kept blocks come in order and are counted by their new indices.
pub proof fn lemma_kept_before_monotone<B>(keep: spec_fn(B) -> bool, blocks: Seq<B>, a: int, b: int)
    requires
        0 <= a <= b,
    ensures
        kept_before(keep, blocks, a) <= kept_before(keep, blocks, b),
        kept_before(keep, blocks, b) <= kept_before(keep, blocks, a) + (b - a),
    decreases b - a,
{
    if a < b {
        lemma_kept_before_monotone(keep, blocks, a, b - 1);
    }
}

/// Removing the block at index `j` when it is not kept: the selectors remapped
/// before it, with the block's current index removed, are those remapped past it.
pub proof fn lemma_remove_step<B, S>(keep: spec_fn(B) -> bool, blocks: Seq<B>, j: int, sels: Seq<(S, usize)>)
    requires
        0 <= j < blocks.len(),
        blocks.len() <= usize::MAX,
        !keep(blocks[j]),
    ensures
        removed_selectors(remapped_upto(keep, blocks, j, sels), kept_before(keep, blocks, j))
            == remapped_upto(keep, blocks, j + 1, sels),
    decreases sels.len(),
{
    if sels.len() > 0 {
        lemma_remove_step(keep, blocks, j, sels.drop_last());
        let k = sels.last().1 as int;
        let i = kept_before(keep, blocks, j);
        assert(kept_before(keep, blocks, j + 1) == i);
        lemma_kept_before_monotone(keep, blocks, 0, j);
        let prev = remapped_upto(keep, blocks, j, sels.drop_last());
        let cur = remapped_upto(keep, blocks, j, sels);
        if k < j {
            lemma_kept_before_monotone(keep, blocks, k + 1, j);
            lemma_kept_before_monotone(keep, blocks, 0, k);
            if keep(blocks[k]) {
                assert(kept_before(keep, blocks, k + 1) == kept_before(keep, blocks, k) + 1);
                assert(cur == prev.push((sels.last().0, kept_before(keep, blocks, k) as usize)));
                assert(cur.drop_last() =~= prev);
            } else {
                assert(cur == prev);
            }
        } else if k == j {
            assert(cur == prev.push((sels.last().0, i as usize)));
            assert(cur.drop_last() =~= prev);
        } else {
            assert(cur == prev.push((sels.last().0, (k - (j - i)) as usize)));
            assert(cur.drop_last() =~= prev);
            assert(k - (j - i) > i);
            assert(removed_selectors(cur, i) == removed_selectors(prev, i).push((sels.last().0, (k - (j - i) - 1) as usize)));
        }
    }
}

/// Keeping the block at index `j` leaves the remapped selectors as they are.
pub proof fn lemma_keep_step<B, S>(keep: spec_fn(B) -> bool, blocks: Seq<B>, j: int, sels: Seq<(S, usize)>)
    requires
        0 <= j < blocks.len(),
        keep(blocks[j]),
    ensures
        remapped_upto(keep, blocks, j, sels) == remapped_upto(keep, blocks, j + 1, sels),
    decreases sels.len(),
{
    if sels.len() > 0 {
        lemma_keep_step(keep, blocks, j, sels.drop_last());
    }
}

/// Nothing is remapped before the first block.
pub proof fn lemma_remap_nothing<B, S>(keep: spec_fn(B) -> bool, blocks: Seq<B>, sels: Seq<(S, usize)>)
    ensures
        remapped_upto(keep, blocks, 0, sels) == sels,
    decreases sels.len(),
{
    if sels.len() > 0 {
        lemma_remap_nothing(keep, blocks, sels.drop_last());
        assert(sels.drop_last().push(sels.last()) =~= sels);
    }
}

impl<V, P, E, S> StyleSheetBuilder<BuilderBlock<V, P, E>, S> {
    /// An empty builder.
    pub fn new() -> (r: Self)
        ensures
            r.layers_hierarchy@ == Seq::<Seq<char>>::empty(),
            r.blocks@.len() == 0,
            r.css_selectors_to_blocks@.len() == 0,
            r.font_faces@.len() == 0,
    {
        StyleSheetBuilder {
            font_faces: Vec::new(),
            layers_hierarchy: LayersHierarchy::new(),
            blocks: Vec::new(),
            css_selectors_to_blocks: Vec::new(),
        }
    }

    /// Adds a font face for the style sheet.
    pub fn register_font_face(&mut self, font_family: String, source: FontFaceSource)
        ensures
            final(self).font_faces@ == old(self).font_faces@.push(StyleFontFace { font_family, source }),
            final(self).blocks@ == old(self).blocks@,
            final(self).css_selectors_to_blocks@ == old(self).css_selectors_to_blocks@,
            final(self).layers_hierarchy == old(self).layers_hierarchy,
    {
        self.font_faces.push(StyleFontFace { font_family, source });
    }

    /// Starts a new, empty ruleset and returns its index.
    pub fn new_ruleset(&mut self) -> (r: usize)
        requires
            old(self).blocks@.len() < usize::MAX,
        ensures
            r == old(self).blocks@.len(),
            final(self).blocks@.len() == old(self).blocks@.len() + 1,
            final(self).blocks@.take(r as int) == old(self).blocks@,
            final(self).blocks@[r as int].empty(),
            final(self).css_selectors_to_blocks@ == old(self).css_selectors_to_blocks@,
            final(self).layers_hierarchy@ == old(self).layers_hierarchy@,
    {
        let id = self.blocks.len();
        self.blocks.push(BuilderBlock::new());
        assert(self.blocks@.take(id as int) =~= old(self).blocks@);
        id
    }

    /// Removes the block at index `id_to_remove`, and the selectors that point
    /// at it; selectors of later blocks point one index lower.
    pub fn remove_id(&mut self, id_to_remove: usize)
        requires
            id_to_remove < old(self).blocks@.len(),
        ensures
            final(self).blocks@ == old(self).blocks@.remove(id_to_remove as int),
            final(self).css_selectors_to_blocks@ == removed_selectors(old(self).css_selectors_to_blocks@, id_to_remove as int),
            final(self).layers_hierarchy@ == old(self).layers_hierarchy@,
            final(self).font_faces@ == old(self).font_faces@,
    {
        self.blocks.remove(id_to_remove);
        let ghost orig = self.css_selectors_to_blocks@;
        let mut selectors: Vec<(S, usize)> = Vec::new();
        let mut rest: Vec<(S, usize)> = Vec::new();
        std::mem::swap(&mut rest, &mut self.css_selectors_to_blocks);
        let ghost mut t: int = 0;
        while rest.len() > 0
            invariant
                0 <= t <= orig.len(),
                rest@ == orig.skip(t),
                selectors@ == removed_selectors(orig.take(t), id_to_remove as int),
                self.font_faces@ == old(self).font_faces@,
                self.blocks@ == old(self).blocks@.remove(id_to_remove as int),
                self.layers_hierarchy == old(self).layers_hierarchy,
            decreases rest.len(),
        {
            assert(orig.take(t + 1).drop_last() =~= orig.take(t));
            assert(rest@[0] == orig[t]);
            let (selector, id) = rest.remove(0);
            if id > id_to_remove {
                selectors.push((selector, id - 1));
            } else if id < id_to_remove {
                selectors.push((selector, id));
            }
            proof {
                t = t + 1;
            }
            assert(rest@ =~= orig.skip(t));
        }
        assert(orig.take(t) =~= orig);
        self.css_selectors_to_blocks = selectors;
    }

    /// Removes every block that declares nothing, with the selectors pointing
    /// at them; the other selectors point at the new index of their block.
    pub fn remove_all_empty_blocks(&mut self)
        ensures
            final(self).blocks@ == kept_prefix(non_empty(), old(self).blocks@, old(self).blocks@.len() as int),
            final(self).css_selectors_to_blocks@ == remapped_upto(non_empty(), old(self).blocks@,
                old(self).blocks@.len() as int, old(self).css_selectors_to_blocks@),
            forall|k: int| 0 <= k < final(self).blocks@.len() ==> !(#[trigger] final(self).blocks@[k]).empty(),
            final(self).layers_hierarchy@ == old(self).layers_hierarchy@,
            final(self).font_faces@ == old(self).font_faces@,
    {
        let _ = self.blocks.len();
        let ghost b0 = self.blocks@;
        let ghost s0 = self.css_selectors_to_blocks@;
        let ghost keep = non_empty::<V, P, E>();
        let ghost n = b0.len() as int;
        proof {
            lemma_remap_nothing(keep, b0, s0);
            assert(b0.skip(0) =~= b0);
            assert(kept_prefix(keep, b0, 0) + b0.skip(0) =~= b0);
        }
        let mut i: usize = 0;
        let ghost mut j: int = 0;
        while i < self.blocks.len()
            invariant
                0 <= j <= n,
                n == b0.len(),
                n <= usize::MAX,
                keep == non_empty::<V, P, E>(),
                i == kept_before(keep, b0, j),
                self.font_faces@ == old(self).font_faces@,
                self.blocks@ == kept_prefix(keep, b0, j) + b0.skip(j),
                self.css_selectors_to_blocks@ == remapped_upto(keep, b0, j, s0),
                self.layers_hierarchy@ == old(self).layers_hierarchy@,
            decreases n - j,
        {
            assert(self.blocks@[i as int] == b0[j]);
            if self.blocks[i].is_empty() {
                proof {
                    lemma_remove_step(keep, b0, j, s0);
                }
                assert(i < self.blocks@.len());
                self.remove_id(i);
                assert(self.blocks@ =~= kept_prefix(keep, b0, j + 1) + b0.skip(j + 1));
            } else {
                proof {
                    lemma_keep_step(keep, b0, j, s0);
                }
                i = i + 1;
                assert(self.blocks@ =~= kept_prefix(keep, b0, j + 1) + b0.skip(j + 1));
            }
            proof {
                j = j + 1;
            }
        }
        proof {
            lemma_kept_before_monotone(keep, b0, j, n);
            if j < n {
                assert(self.blocks@.len() == i + (n - j));
            }
            assert(b0.skip(j) =~= Seq::<BuilderBlock<V, P, E>>::empty());
            assert(self.blocks@ =~= kept_prefix(keep, b0, j));
            lemma_kept_prefix_kept(keep, b0, j);
        }
    }

    /// Checks that every block has at least one selector; otherwise names the
    /// first block without one.
    pub fn validate_no_orphan_block(&self) -> (r: Result<(), StyleSheetBuilderError>)
        ensures
            match r {
                Ok(()) => forall|i: int| 0 <= i < self.blocks@.len() ==> has_selector(self.css_selectors_to_blocks@, i),
                Err(StyleSheetBuilderError::OrphanBlock(b)) => {
                    &&& b < self.blocks@.len()
                    &&& !has_selector(self.css_selectors_to_blocks@, b as int)
                    &&& forall|i: int| 0 <= i < b ==> has_selector(self.css_selectors_to_blocks@, i)
                },
            },
    {
        let sels = &self.css_selectors_to_blocks;
        let mut block_id: usize = 0;
        while block_id < self.blocks.len()
            invariant
                block_id <= self.blocks@.len(),
                sels@ == self.css_selectors_to_blocks@,
                forall|i: int| 0 <= i < block_id ==> has_selector(sels@, i),
            decreases self.blocks.len() - block_id,
        {
            let mut found = false;
            let mut k: usize = 0;
            while k < sels.len()
                invariant
                    k <= sels@.len(),
                    found == exists|q: int| 0 <= q < k && #[trigger] sels@[q].1 == block_id,
                decreases sels.len() - k,
            {
                if sels[k].1 == block_id {
                    found = true;
                }
                k = k + 1;
            }
            if !found {
                return Err(StyleSheetBuilderError::OrphanBlock(block_id));
            }
            block_id = block_id + 1;
        }
        Ok(())
    }
}


/// The layers after defining each of `names` in turn.
pub open spec fn define_all(l: Seq<Seq<char>>, names: Seq<&str>) -> Seq<Seq<char>>
    decreases names.len(),
{
    if names.len() == 0 {
        l
    } else {
        define_spec(define_all(l, names.drop_last()), names.last()@)
    }
}

/// A name that can be defined as a layer: empty, or dot-separated segments.
pub open spec fn definable_layer(n: Seq<char>) -> bool {
    n.len() == 0 || valid_layer_name(n)
}

impl<V, P, E, S> StyleSheetBuilder<BuilderBlock<V, P, E>, S> {
    /// Sets the order of cascade layers: each name is defined in turn.
    pub fn define_layers(&mut self, layers: &Vec<&str>)
        requires
            forall|i: int| 0 <= i < layers@.len() ==> definable_layer(#[trigger] layers@[i]@),
        ensures
            final(self).layers_hierarchy@ == define_all(old(self).layers_hierarchy@, layers@),
            final(self).blocks@ == old(self).blocks@,
            final(self).css_selectors_to_blocks@ == old(self).css_selectors_to_blocks@,
    {
        let mut i: usize = 0;
        while i < layers.len()
            invariant
                i <= layers@.len(),
                forall|k: int| 0 <= k < layers@.len() ==> definable_layer(#[trigger] layers@[k]@),
                self.layers_hierarchy@ == define_all(old(self).layers_hierarchy@, layers@.take(i as int)),
                self.blocks@ == old(self).blocks@,
                self.css_selectors_to_blocks@ == old(self).css_selectors_to_blocks@,
            decreases layers.len() - i,
        {
            assert(layers@.take(i as int + 1).drop_last() =~= layers@.take(i as int));
            let layer: &str = layers[i];
            assert(definable_layer(layer@));
            self.layers_hierarchy.define_layer(layer);
            i = i + 1;
        }
        assert(layers@.take(layers@.len() as int) =~= layers@);
    }

    /// Points `selector`, of cascade layer `layer`, at the block `block_id`,
    /// defining the layer if needed.
    pub fn add_css_selector(&mut self, block_id: usize, selector: S, layer: &str)
        requires
            definable_layer(layer@),
            block_id < old(self).blocks@.len(),
        ensures
            final(self).layers_hierarchy@ == define_spec(old(self).layers_hierarchy@, layer@),
            final(self).css_selectors_to_blocks@ == old(self).css_selectors_to_blocks@.push((selector, block_id)),
            final(self).blocks@ == old(self).blocks@,
            final(self).font_faces@ == old(self).font_faces@,
    {
        self.layers_hierarchy.define_layer(layer);
        self.css_selectors_to_blocks.push((selector, block_id));
    }
}


/// A property of a ruleset: a specific property with its value `P`, or one
/// given through variables, `D`, whose value is parsed once they are known.
#[derive(Debug)]
pub enum StyleBuilderProperty<P, D> {
    /// A property and its value.
    Specific(P),
    /// A property whose value is parsed at run time.
    Dynamic(D),
}

impl<V, P, E> BuilderBlock<V, P, E> {
    /// Adds a property.
    pub fn add_property(&mut self, property: P)
        ensures
            final(self).properties@ == old(self).properties@.push(property),
            final(self).vars@ == old(self).vars@,
            final(self).animation_properties.properties@ == old(self).animation_properties.properties@,
            final(self).transition_properties.properties@ == old(self).transition_properties.properties@,
    {
        self.properties.push(property);
    }

    /// Adds properties, in order.
    pub fn add_properties(&mut self, properties: Vec<P>)
        ensures
            final(self).properties@ == old(self).properties@ + properties@,
            final(self).vars@ == old(self).vars@,
            final(self).animation_properties.properties@ == old(self).animation_properties.properties@,
            final(self).transition_properties.properties@ == old(self).transition_properties.properties@,
    {
        let ghost added = properties@;
        let mut rest = properties;
        let ghost mut t: int = 0;
        while rest.len() > 0
            invariant
                0 <= t <= added.len(),
                rest@ == added.skip(t),
                self.properties@ == old(self).properties@ + added.take(t),
                self.vars@ == old(self).vars@,
                self.animation_properties.properties@ == old(self).animation_properties.properties@,
                self.transition_properties.properties@ == old(self).transition_properties.properties@,
            decreases rest.len(),
        {
            assert(rest@[0] == added[t]);
            let property = rest.remove(0);
            self.properties.push(property);
            proof {
                t = t + 1;
            }
            assert(rest@ =~= added.skip(t));
            assert(self.properties@ =~= old(self).properties@ + added.take(t));
        }
        assert(added.take(t) =~= added);
    }

    /// Defines a variable; a later definition of the same name wins.
    pub fn add_var(&mut self, var_name: String, tokens: V)
        ensures
            final(self).vars@ == old(self).vars@.push((var_name, tokens)),
            final(self).properties@ == old(self).properties@,
            final(self).animation_properties.properties@ == old(self).animation_properties.properties@,
            final(self).transition_properties.properties@ == old(self).transition_properties.properties@,
    {
        self.vars.push((var_name, tokens));
    }

    /// Adds an `animation-*` declaration.
    pub fn add_animation_property(&mut self, property: AnimationProperty<AnimationPropertyId, E>)
        ensures
            final(self).animation_properties.properties@ == old(self).animation_properties.properties@.push(property),
            final(self).properties@ == old(self).properties@,
            final(self).vars@ == old(self).vars@,
            final(self).transition_properties.properties@ == old(self).transition_properties.properties@,
    {
        self.animation_properties.properties.push(property);
    }

    /// Adds a `transition-*` declaration.
    pub fn add_transition_property(&mut self, property: AnimationProperty<TransitionPropertyId, E>)
        ensures
            final(self).transition_properties.properties@ == old(self).transition_properties.properties@.push(property),
            final(self).properties@ == old(self).properties@,
            final(self).vars@ == old(self).vars@,
            final(self).animation_properties.properties@ == old(self).animation_properties.properties@,
    {
        self.transition_properties.properties.push(property);
    }
}

/// The value a variable has: its last definition.
pub open spec fn var_value<V>(vars: Seq<(String, V)>, name: Seq<char>) -> Option<V>
    decreases vars.len(),
{
    if vars.len() == 0 {
        None
    } else if vars.last().0@ == name {
        Some(vars.last().1)
    } else {
        var_value(vars.drop_last(), name)
    }
}

} // verus!
