//! Loading a style sheet from what was read of it: rulesets, nested
//! rulesets, layer definitions, font faces and errors go, in order, into a
//! style sheet builder and a report; the report then decides whether the
//! load fails.
//!
//! A ruleset whose selectors read makes one block per run of declarations
//! between its nested rulesets, each pointed at by its selectors; a nested
//! ruleset makes its own blocks in between. A ruleset whose selectors did not
//! read adds their error and the errors of its declarations, nested ones
//! included. Selectors arrive as read, each with the name of its cascade
//! layer; those of a nested ruleset already hold their parent's, as the
//! selector type itself puts them in.

use vstd::prelude::*;
use crate::animations::properties::{AnimationProperty, AnimationPropertyId, TransitionPropertyId};
use crate::builder::{BuilderBlock, StyleBuilderProperty, StyleFontFace, StyleSheetBuilder};
use crate::css::error::CssError;
use crate::css::font_face::FontFace;
use crate::css::ruleset::{has_error, process_ruleset_property, report_outcome, CssRulesetProperty, CssStyleLoaderErrorMode,
    ErrorReport, ReportEntry, ReportOutcome, specific_properties, with_important_level};
use crate::builder::{definable_layer, kept_prefix, non_empty, remapped_upto};
use crate::layers::define_spec;

verus! {

/// A ruleset as read: its selectors, each with the name of its cascade
/// layer, or the error met reading them; and its declarations, nested
/// rulesets among them.
#[derive(Debug)]
pub struct CssRuleset<S, P, D, V, E> {
    /// The selectors and their layers, or the error met reading them.
    pub selectors: Result<Vec<(S, String)>, CssError>,
    /// The declarations, in order.
    pub properties: Vec<CssRulesetProperty<P, D, V, E, CssRuleset<S, P, D, V, E>>>,
}

/// An item of a style sheet as read.
#[derive(Debug)]
pub enum CssStyleSheetItem<S, P, D, V, E> {
    /// `@layer a, b;`: layers to define, in order.
    LayersDefinition(Vec<String>),
    /// A ruleset.
    RuleSet(CssRuleset<S, P, D, V, E>),
    /// A `@font-face` rule.
    FontFace(FontFace),
    /// Items of a block such as `@layer a { ... }`, in order.
    Inner(Vec<CssStyleSheetItem<S, P, D, V, E>>),
    /// A rule that could not be read.
    Error(CssError),
}

/// A declaration of a ruleset.
pub type Declaration<S, P, D, V, E> = CssRulesetProperty<P, D, V, E, CssRuleset<S, P, D, V, E>>;

/// One step of loading a style sheet.
pub enum SheetStep<S, P, D, V, E> {
    /// A block with these declarations, pointed at by these selectors.
    Block(Seq<(S, String)>, Seq<Declaration<S, P, D, V, E>>),
    /// Layers to define, in order.
    Layers(Seq<String>),
    /// A font face, with the errors of its declarations.
    Font(FontFace),
    /// An error to report.
    Error(CssError),
}

/// The steps of the declarations of a ruleset with selectors `sels`, from
/// the `i`-th on, the declarations `seg` of the current block already seen.
pub open spec fn declaration_steps<S, P, D, V, E>(
    sels: Seq<(S, String)>,
    props: Seq<Declaration<S, P, D, V, E>>,
    i: int,
    seg: Seq<Declaration<S, P, D, V, E>>,
) -> Seq<SheetStep<S, P, D, V, E>>
    decreases props, props.len() - i,
{
    if i < 0 || i >= props.len() {
        seq![SheetStep::Block(sels, seg)]
    } else {
        match props[i] {
            CssRulesetProperty::NestedRuleset(n) => seq![SheetStep::Block(sels, seg)] + ruleset_steps(n)
                + declaration_steps(sels, props, i + 1, Seq::empty()),
            p => declaration_steps(sels, props, i + 1, seg.push(p)),
        }
    }
}

/// The errors among declarations, from the `i`-th on: errors, and for a
/// nested ruleset the error of its selectors and the errors among its own.
pub open spec fn error_steps<S, P, D, V, E>(
    props: Seq<Declaration<S, P, D, V, E>>,
    i: int,
) -> Seq<SheetStep<S, P, D, V, E>>
    decreases props, props.len() - i,
{
    if i < 0 || i >= props.len() {
        Seq::empty()
    } else {
        match props[i] {
            CssRulesetProperty::NestedRuleset(n) => (match n.selectors {
                Err(e) => seq![SheetStep::Error(e)],
                Ok(_) => Seq::empty(),
            }) + error_steps(n.properties@, 0) + error_steps(props, i + 1),
            CssRulesetProperty::Error(e) => seq![SheetStep::Error(e)] + error_steps(props, i + 1),
            _ => error_steps(props, i + 1),
        }
    }
}

/// The steps of a ruleset.
pub open spec fn ruleset_steps<S, P, D, V, E>(r: CssRuleset<S, P, D, V, E>) -> Seq<SheetStep<S, P, D, V, E>>
    decreases r, 0int,
{
    match r.selectors {
        Ok(sels) => declaration_steps(sels@, r.properties@, 0, Seq::empty()),
        Err(e) => seq![SheetStep::Error(e)] + error_steps(r.properties@, 0),
    }
}

/// The steps of one item.
pub open spec fn item_steps<S, P, D, V, E>(item: CssStyleSheetItem<S, P, D, V, E>) -> Seq<SheetStep<S, P, D, V, E>>
    decreases item, 0int,
{
    match item {
        CssStyleSheetItem::LayersDefinition(names) => seq![SheetStep::Layers(names@)],
        CssStyleSheetItem::RuleSet(r) => ruleset_steps(r),
        CssStyleSheetItem::FontFace(f) => seq![SheetStep::Font(f)],
        CssStyleSheetItem::Inner(inner) => items_steps(inner@, 0),
        CssStyleSheetItem::Error(e) => seq![SheetStep::Error(e)],
    }
}

/// The steps of items, from the `i`-th on.
pub open spec fn items_steps<S, P, D, V, E>(items: Seq<CssStyleSheetItem<S, P, D, V, E>>, i: int) -> Seq<SheetStep<S, P, D, V, E>>
    decreases items, items.len() - i,
{
    if i < 0 || i >= items.len() {
        Seq::empty()
    } else {
        item_steps(items[i]) + items_steps(items, i + 1)
    }
}

/// What a block holds, seen as sequences.
pub struct BlockView<P, D, V, E> {
    /// Its properties.
    pub properties: Seq<StyleBuilderProperty<P, D>>,
    /// Its variables.
    pub vars: Seq<(String, V)>,
    /// Its `animation-*` declarations.
    pub animations: Seq<AnimationProperty<AnimationPropertyId, E>>,
    /// Its `transition-*` declarations.
    pub transitions: Seq<AnimationProperty<TransitionPropertyId, E>>,
}

/// A block seen as sequences.
pub open spec fn block_view<P, D, V, E>(b: BuilderBlock<V, StyleBuilderProperty<P, D>, E>) -> BlockView<P, D, V, E> {
    BlockView {
        properties: b.properties@,
        vars: b.vars@,
        animations: b.animation_properties.properties@,
        transitions: b.transition_properties.properties@,
    }
}

/// The block the declarations `ps` make.
pub open spec fn block_of<S, P, D, V, E>(ps: Seq<Declaration<S, P, D, V, E>>) -> BlockView<P, D, V, E>
    decreases ps.len(),
{
    if ps.len() == 0 {
        BlockView { properties: Seq::empty(), vars: Seq::empty(), animations: Seq::empty(), transitions: Seq::empty() }
    } else {
        let b = block_of(ps.drop_last());
        match ps.last() {
            CssRulesetProperty::SingleProperty(p, _) => BlockView { properties: b.properties.push(StyleBuilderProperty::Specific(p)), ..b },
            CssRulesetProperty::MultipleProperties(qs, _) => BlockView { properties: b.properties + specific_properties::<P, D>(qs@), ..b },
            CssRulesetProperty::DynamicProperty(d, _) => BlockView { properties: b.properties.push(StyleBuilderProperty::Dynamic(d)), ..b },
            CssRulesetProperty::Var(name, tokens) => BlockView { vars: b.vars.push((name, tokens)), ..b },
            CssRulesetProperty::AnimationProperty(a) => BlockView { animations: b.animations.push(a), ..b },
            CssRulesetProperty::TransitionProperty(t) => BlockView { transitions: b.transitions.push(t), ..b },
            _ => b,
        }
    }
}

/// The report after the declarations `ps`: the advice for each
/// `!important`, and each error.
pub open spec fn declaration_entries<S, P, D, V, E>(entries: Seq<ReportEntry>, ps: Seq<Declaration<S, P, D, V, E>>) -> Seq<ReportEntry>
    decreases ps.len(),
{
    if ps.len() == 0 {
        entries
    } else {
        let prev = declaration_entries(entries, ps.drop_last());
        match ps.last() {
            CssRulesetProperty::SingleProperty(_, level) => with_important_level(prev, level),
            CssRulesetProperty::MultipleProperties(_, level) => with_important_level(prev, level),
            CssRulesetProperty::DynamicProperty(_, level) => with_important_level(prev, level),
            CssRulesetProperty::Error(e) => prev.push(ReportEntry::Error(e)),
            _ => prev,
        }
    }
}

/// The report after adding each of `errors`.
pub open spec fn error_entries(entries: Seq<ReportEntry>, errors: Seq<CssError>) -> Seq<ReportEntry>
    decreases errors.len(),
{
    if errors.len() == 0 {
        entries
    } else {
        error_entries(entries, errors.drop_last()).push(ReportEntry::Error(errors.last()))
    }
}

/// The layers after defining the layer of each of `sels`.
pub open spec fn define_selector_layers<S>(l: Seq<Seq<char>>, sels: Seq<(S, String)>) -> Seq<Seq<char>>
    decreases sels.len(),
{
    if sels.len() == 0 {
        l
    } else {
        define_spec(define_selector_layers(l, sels.drop_last()), sels.last().1@)
    }
}

/// The layers after defining each of `names`.
pub open spec fn define_names(l: Seq<Seq<char>>, names: Seq<String>) -> Seq<Seq<char>>
    decreases names.len(),
{
    if names.len() == 0 {
        l
    } else {
        define_spec(define_names(l, names.drop_last()), names.last()@)
    }
}

/// Selectors pointing at block `id`.
pub open spec fn pointing_at<S>(sels: Seq<(S, String)>, id: int) -> Seq<(S, usize)> {
    Seq::new(sels.len(), |i: int| (sels[i].0, id as usize))
}

/// A style sheet being loaded, seen as sequences.
pub struct SheetState<S, P, D, V, E> {
    /// The blocks.
    pub blocks: Seq<BlockView<P, D, V, E>>,
    /// Each selector and the block it points at.
    pub selectors: Seq<(S, usize)>,
    /// The layers, in order.
    pub layers: Seq<Seq<char>>,
    /// The font faces.
    pub font_faces: Seq<StyleFontFace>,
    /// The report.
    pub entries: Seq<ReportEntry>,
}

/// The state after one step.
pub open spec fn apply_step<S, P, D, V, E>(x: SheetState<S, P, D, V, E>, step: SheetStep<S, P, D, V, E>) -> SheetState<S, P, D, V, E> {
    match step {
        SheetStep::Block(sels, ps) => SheetState {
            blocks: x.blocks.push(block_of(ps)),
            selectors: x.selectors + pointing_at(sels, x.blocks.len() as int),
            layers: define_selector_layers(x.layers, sels),
            font_faces: x.font_faces,
            entries: declaration_entries(x.entries, ps),
        },
        SheetStep::Layers(names) => SheetState { layers: define_names(x.layers, names), ..x },
        SheetStep::Font(f) => SheetState {
            font_faces: x.font_faces.push(StyleFontFace { font_family: f.family_name, source: f.source }),
            entries: error_entries(x.entries, f.errors@),
            ..x
        },
        SheetStep::Error(e) => SheetState { entries: x.entries.push(ReportEntry::Error(e)), ..x },
    }
}

/// The state after the steps, in order.
pub open spec fn apply_steps<S, P, D, V, E>(x: SheetState<S, P, D, V, E>, steps: Seq<SheetStep<S, P, D, V, E>>) -> SheetState<S, P, D, V, E>
    decreases steps.len(),
{
    if steps.len() == 0 {
        x
    } else {
        apply_step(apply_steps(x, steps.drop_last()), steps.last())
    }
}

/// Applying two runs of steps is applying them one after the other.
pub proof fn lemma_apply_concat<S, P, D, V, E>(
    x: SheetState<S, P, D, V, E>,
    a: Seq<SheetStep<S, P, D, V, E>>,
    b: Seq<SheetStep<S, P, D, V, E>>,
)
    ensures
        apply_steps(x, a + b) == apply_steps(apply_steps(x, a), b),
    decreases b.len(),
{
    if b.len() == 0 {
        assert(a + b =~= a);
    } else {
        lemma_apply_concat(x, a, b.drop_last());
        assert((a + b).drop_last() =~= a + b.drop_last());
        assert((a + b).last() == b.last());
    }
}

/// Whether the layers a step names can all be defined.
pub open spec fn step_ready<S, P, D, V, E>(step: SheetStep<S, P, D, V, E>) -> bool {
    match step {
        SheetStep::Block(sels, _) => forall|j: int| 0 <= j < sels.len() ==> definable_layer(#[trigger] sels[j].1@),
        SheetStep::Layers(names) => forall|j: int| 0 <= j < names.len() ==> definable_layer(#[trigger] names[j]@),
        _ => true,
    }
}

/// Whether the layers all the steps name can be defined.
pub open spec fn steps_ready<S, P, D, V, E>(steps: Seq<SheetStep<S, P, D, V, E>>) -> bool {
    forall|k: int| 0 <= k < steps.len() ==> step_ready(#[trigger] steps[k])
}

proof fn lemma_ready_split<S, P, D, V, E>(a: Seq<SheetStep<S, P, D, V, E>>, b: Seq<SheetStep<S, P, D, V, E>>)
    requires
        steps_ready(a + b),
    ensures
        steps_ready(a),
        steps_ready(b),
{
    assert forall|k: int| 0 <= k < a.len() implies step_ready(#[trigger] a[k]) by {
        assert((a + b)[k] == a[k]);
    }
    assert forall|k: int| 0 <= k < b.len() implies step_ready(#[trigger] b[k]) by {
        assert((a + b)[a.len() + k] == b[k]);
    }
}

proof fn lemma_apply_one<S, P, D, V, E>(x: SheetState<S, P, D, V, E>, step: SheetStep<S, P, D, V, E>)
    ensures
        apply_steps(x, seq![step]) == apply_step(x, step),
{
    let e = seq![step].drop_last();
    assert(e =~= Seq::<SheetStep<S, P, D, V, E>>::empty());
    assert(apply_steps(x, e) == x);
    assert(seq![step].last() == step);
}

/// Stored selectors are clones of the expected ones, pointing at the same blocks.
pub open spec fn selectors_cloned<S: Clone>(stored: Seq<(S, usize)>, expected: Seq<(S, usize)>) -> bool {
    &&& stored.len() == expected.len()
    &&& forall|i: int| 0 <= i < stored.len() ==> (#[trigger] stored[i]).1 == expected[i].1 && cloned(expected[i].0, stored[i].0)
}

/// The builder and report being loaded, seen as a state.
pub open spec fn sheet_matches<S: Clone, P, D, V, E>(
    b: StyleSheetBuilder<BuilderBlock<V, StyleBuilderProperty<P, D>, E>, S>,
    entries: Seq<ReportEntry>,
    x: SheetState<S, P, D, V, E>,
) -> bool {
    &&& b.blocks@.map_values(|blk: BuilderBlock<V, StyleBuilderProperty<P, D>, E>| block_view(blk)) == x.blocks
    &&& selectors_cloned(b.css_selectors_to_blocks@, x.selectors)
    &&& b.layers_hierarchy@ == x.layers
    &&& b.font_faces@ == x.font_faces
    &&& entries == x.entries
}

/// Adds `block` and points clones of `sels` at it, defining their layers.
fn push_block<S: Clone, P, D, V, E>(
    builder: &mut StyleSheetBuilder<BuilderBlock<V, StyleBuilderProperty<P, D>, E>, S>,
    block: BuilderBlock<V, StyleBuilderProperty<P, D>, E>,
    sels: &Vec<(S, String)>,
    Ghost(x): Ghost<SheetState<S, P, D, V, E>>,
    Ghost(ps): Ghost<Seq<Declaration<S, P, D, V, E>>>,
    Ghost(entries): Ghost<Seq<ReportEntry>>,
)
    requires
        sheet_matches(*old(builder), x.entries, x),
        step_ready(SheetStep::Block(sels@, ps)),
        block_view(block) == block_of(ps),
        entries == declaration_entries(x.entries, ps),
    ensures
        sheet_matches(*final(builder), entries, apply_step(x, SheetStep::Block(sels@, ps))),
{
    let id = builder.blocks.len();
    builder.blocks.push(block);
    let ghost old_sels = builder.css_selectors_to_blocks@;
    let ghost l0 = builder.layers_hierarchy@;
    proof {
        let st = SheetStep::<S, P, D, V, E>::Block(sels@, ps);
        assert(step_ready(st));
        assert(st matches SheetStep::Block(a, _) && a == sels@);
        assert(forall|k: int| 0 <= k < sels@.len() ==> definable_layer(#[trigger] sels@[k].1@));
        assert(builder.blocks@.map_values(|blk: BuilderBlock<V, StyleBuilderProperty<P, D>, E>| block_view(blk))
            =~= x.blocks.push(block_of(ps)));
    }
    let mut j: usize = 0;
    while j < sels.len()
        invariant
            j <= sels@.len(),
            id == x.blocks.len(),
            builder.blocks@.len() == id + 1,
            builder.blocks@.map_values(|blk: BuilderBlock<V, StyleBuilderProperty<P, D>, E>| block_view(blk))
                == x.blocks.push(block_of(ps)),
            builder.layers_hierarchy@ == define_selector_layers(l0, sels@.take(j as int)),
            builder.font_faces@ == x.font_faces,
            builder.css_selectors_to_blocks@.len() == old_sels.len() + j,
            forall|k: int| 0 <= k < old_sels.len() ==> #[trigger] builder.css_selectors_to_blocks@[k] == old_sels[k],
            forall|k: int| 0 <= k < j ==> (#[trigger] builder.css_selectors_to_blocks@[old_sels.len() + k]).1 == id
                && cloned(sels@[k].0, builder.css_selectors_to_blocks@[old_sels.len() + k].0),
            forall|k: int| 0 <= k < sels@.len() ==> definable_layer(#[trigger] sels@[k].1@),
        decreases sels@.len() - j,
    {
        let selector = sels[j].0.clone();
        proof {
            assert(definable_layer(sels@[j as int].1@));
        }
        builder.add_css_selector(id, selector, sels[j].1.as_str());
        proof {
            assert(sels@.take(j + 1).drop_last() =~= sels@.take(j as int));
        }
        j = j + 1;
    }
    proof {
        assert(sels@.take(sels@.len() as int) =~= sels@);
        let expected = x.selectors + pointing_at(sels@, x.blocks.len() as int);
        assert forall|i: int| 0 <= i < builder.css_selectors_to_blocks@.len() implies
            (#[trigger] builder.css_selectors_to_blocks@[i]).1 == expected[i].1
            && cloned(expected[i].0, builder.css_selectors_to_blocks@[i].0) by {
            if i < old_sels.len() {
            } else {
                let k = i - old_sels.len();
                assert(builder.css_selectors_to_blocks@[old_sels.len() + k] == builder.css_selectors_to_blocks@[i]);
            }
        }
    }
}

/// Reports the errors among declarations, nested ones included.
fn report_errors<S: Clone, P, D, V, E>(
    builder: &StyleSheetBuilder<BuilderBlock<V, StyleBuilderProperty<P, D>, E>, S>,
    report: &mut ErrorReport,
    props: Vec<Declaration<S, P, D, V, E>>,
    Ghost(x0): Ghost<SheetState<S, P, D, V, E>>,
)
    requires
        sheet_matches(*builder, old(report).entries@, x0),
    ensures
        sheet_matches(*builder, final(report).entries@, apply_steps(x0, error_steps(props@, 0))),
    decreases props@,
{
    let ghost ps = props@;
    let ghost g = apply_steps(x0, error_steps(ps, 0));
    let n = props.len();
    let mut rest = props;
    let mut i: usize = 0;
    let ghost mut x = x0;
    while i < n
        invariant
            n == ps.len(),
            ps == props@,
            i <= n,
            rest@ == ps.skip(i as int),
            sheet_matches(*builder, report.entries@, x),
            apply_steps(x, error_steps(ps, i as int)) == g,
        decreases n - i,
    {
        assert(rest@[0] == ps[i as int]);
        let declaration = rest.remove(0);
        match declaration {
            CssRulesetProperty::NestedRuleset(nested) => {
                let ghost inner = nested.properties@;
                let ghost first: Seq<SheetStep<S, P, D, V, E>> = match nested.selectors {
                    Err(e) => seq![SheetStep::Error(e)],
                    Ok(_) => Seq::empty(),
                };
                proof {
                    lemma_apply_concat(x, first + error_steps(inner, 0), error_steps(ps, i + 1));
                    lemma_apply_concat(x, first, error_steps(inner, 0));
                }
                let CssRuleset { selectors, properties } = nested;
                match selectors {
                    Err(e) => {
                        report.add_error(e);
                        proof {
                            lemma_apply_one(x, SheetStep::Error(e));
                            x = apply_step(x, SheetStep::Error(e));
                        }
                    },
                    Ok(_) => {
                        assert(apply_steps(x, first) == x);
                    },
                }
                let ghost x1 = x;
                report_errors(builder, report, properties, Ghost(x1));
                proof {
                    x = apply_steps(x1, error_steps(inner, 0));
                }
            },
            CssRulesetProperty::Error(e) => {
                proof {
                    lemma_apply_concat(x, seq![SheetStep::Error(e)], error_steps(ps, i + 1));
                    lemma_apply_one(x, SheetStep::Error(e));
                }
                report.add_error(e);
                proof {
                    x = apply_step(x, SheetStep::Error(e));
                }
            },
            _ => {},
        }
        i = i + 1;
        assert(rest@ =~= ps.skip(i as int));
    }
}

/// Loads the declarations of a ruleset whose selectors are `sels`: a block
/// per run of declarations between nested rulesets, which load in between.
fn load_declarations<S: Clone, P, D, V, E>(
    builder: &mut StyleSheetBuilder<BuilderBlock<V, StyleBuilderProperty<P, D>, E>, S>,
    report: &mut ErrorReport,
    sels: &Vec<(S, String)>,
    props: Vec<Declaration<S, P, D, V, E>>,
    Ghost(x0): Ghost<SheetState<S, P, D, V, E>>,
)
    requires
        sheet_matches(*old(builder), old(report).entries@, x0),
        steps_ready(declaration_steps(sels@, props@, 0, Seq::empty())),
    ensures
        sheet_matches(*final(builder), final(report).entries@,
            apply_steps(x0, declaration_steps(sels@, props@, 0, Seq::empty()))),
    decreases props@, 1int,
{
    let ghost ps = props@;
    let ghost g = apply_steps(x0, declaration_steps(sels@, ps, 0, Seq::empty()));
    let n = props.len();
    let mut rest = props;
    let mut i: usize = 0;
    let ghost mut x = x0;
    let ghost mut seg: Seq<Declaration<S, P, D, V, E>> = Seq::empty();
    let mut block: BuilderBlock<V, StyleBuilderProperty<P, D>, E> = BuilderBlock::new();
    proof {
        assert(block_view(block) == block_of(seg)) by {
            assert(block_view(block).properties =~= Seq::<StyleBuilderProperty<P, D>>::empty());
            assert(block_view(block).vars =~= Seq::<(String, V)>::empty());
            assert(block_view(block).animations =~= Seq::<AnimationProperty<AnimationPropertyId, E>>::empty());
            assert(block_view(block).transitions =~= Seq::<AnimationProperty<TransitionPropertyId, E>>::empty());
        }
    }
    while i < n
        invariant
            n == ps.len(),
            ps == props@,
            i <= n,
            rest@ == ps.skip(i as int),
            sheet_matches(*builder, x.entries, x),
            report.entries@ == declaration_entries(x.entries, seg),
            block_view(block) == block_of(seg),
            steps_ready(declaration_steps(sels@, ps, i as int, seg)),
            apply_steps(x, declaration_steps(sels@, ps, i as int, seg)) == g,
        decreases n - i,
    {
        assert(rest@[0] == ps[i as int]);
        let declaration = rest.remove(0);
        match declaration {
            CssRulesetProperty::NestedRuleset(nested) => {
                let ghost b = SheetStep::Block(sels@, seg);
                let ghost rs = ruleset_steps(nested);
                let ghost after = declaration_steps(sels@, ps, i + 1, Seq::empty());
                proof {
                    lemma_apply_concat(x, seq![b] + rs, after);
                    lemma_apply_concat(x, seq![b], rs);
                    lemma_apply_one(x, b);
                    lemma_ready_split(seq![b] + rs, after);
                    lemma_ready_split(seq![b], rs);
                    assert(seq![b][0] == b);
                }
                let mut full: BuilderBlock<V, StyleBuilderProperty<P, D>, E> = BuilderBlock::new();
                std::mem::swap(&mut full, &mut block);
                push_block(builder, full, sels, Ghost(x), Ghost(seg), Ghost(report.entries@));
                proof {
                    x = apply_step(x, b);
                }
                let ghost x1 = x;
                load_ruleset(builder, report, nested, Ghost(x1));
                proof {
                    x = apply_steps(x1, rs);
                    seg = Seq::empty();
                    assert(declaration_entries(x.entries, seg) == x.entries);
                    assert(block_view(block).properties =~= Seq::<StyleBuilderProperty<P, D>>::empty());
                    assert(block_view(block).vars =~= Seq::<(String, V)>::empty());
                    assert(block_view(block).animations =~= Seq::<AnimationProperty<AnimationPropertyId, E>>::empty());
                    assert(block_view(block).transitions =~= Seq::<AnimationProperty<TransitionPropertyId, E>>::empty());
                    assert(block_view(block) == block_of(seg));
                }
            },
            other => {
                let ghost d = other;
                proof {
                    assert(seg.push(d).drop_last() =~= seg);
                }
                process_ruleset_property(other, &mut block, report);
                proof {
                    seg = seg.push(d);
                    assert(block_view(block) =~= block_of(seg));
                }
            },
        }
        i = i + 1;
        assert(rest@ =~= ps.skip(i as int));
    }
    proof {
        let b = SheetStep::Block(sels@, seg);
        lemma_apply_one(x, b);
        assert(seq![b][0] == b);
    }
    push_block(builder, block, sels, Ghost(x), Ghost(seg), Ghost(report.entries@));
}

/// Loads a ruleset: its blocks when its selectors read, else its errors.
pub fn load_ruleset<S: Clone, P, D, V, E>(
    builder: &mut StyleSheetBuilder<BuilderBlock<V, StyleBuilderProperty<P, D>, E>, S>,
    report: &mut ErrorReport,
    ruleset: CssRuleset<S, P, D, V, E>,
    Ghost(x0): Ghost<SheetState<S, P, D, V, E>>,
)
    requires
        sheet_matches(*old(builder), old(report).entries@, x0),
        steps_ready(ruleset_steps(ruleset)),
    ensures
        sheet_matches(*final(builder), final(report).entries@, apply_steps(x0, ruleset_steps(ruleset))),
    decreases ruleset, 0int,
{
    let ghost r = ruleset;
    let CssRuleset { selectors, properties } = ruleset;
    match selectors {
        Ok(sels) => {
            load_declarations(builder, report, &sels, properties, Ghost(x0));
        },
        Err(e) => {
            proof {
                lemma_apply_concat(x0, seq![SheetStep::Error(e)], error_steps(r.properties@, 0));
                lemma_apply_one(x0, SheetStep::Error(e));
            }
            report.add_error(e);
            report_errors(builder, report, properties, Ghost(apply_step(x0, SheetStep::Error(e))));
        },
    }
}

/// Loads items, in order.
pub fn load_items<S: Clone, P, D, V, E>(
    builder: &mut StyleSheetBuilder<BuilderBlock<V, StyleBuilderProperty<P, D>, E>, S>,
    report: &mut ErrorReport,
    items: Vec<CssStyleSheetItem<S, P, D, V, E>>,
    Ghost(x0): Ghost<SheetState<S, P, D, V, E>>,
)
    requires
        sheet_matches(*old(builder), old(report).entries@, x0),
        steps_ready(items_steps(items@, 0)),
    ensures
        sheet_matches(*final(builder), final(report).entries@, apply_steps(x0, items_steps(items@, 0))),
    decreases items@,
{
    let ghost is = items@;
    let ghost g = apply_steps(x0, items_steps(is, 0));
    let n = items.len();
    let mut rest = items;
    let mut i: usize = 0;
    let ghost mut x = x0;
    while i < n
        invariant
            n == is.len(),
            is == items@,
            i <= n,
            rest@ == is.skip(i as int),
            sheet_matches(*builder, report.entries@, x),
            steps_ready(items_steps(is, i as int)),
            apply_steps(x, items_steps(is, i as int)) == g,
        decreases n - i,
    {
        assert(rest@[0] == is[i as int]);
        let item = rest.remove(0);
        let ghost own = item_steps(item);
        proof {
            lemma_apply_concat(x, own, items_steps(is, i + 1));
            lemma_ready_split(own, items_steps(is, i + 1));
        }
        match item {
            CssStyleSheetItem::LayersDefinition(names) => {
                let ghost step = SheetStep::<S, P, D, V, E>::Layers(names@);
                proof {
                    lemma_apply_one(x, step);
                    assert(own[0] == step);
                    assert(step_ready(step));
                    assert(step matches SheetStep::Layers(a) && a == names@);
                }
                let ghost l0 = builder.layers_hierarchy@;
                let ghost b0 = *builder;
                let mut j: usize = 0;
                while j < names.len()
                    invariant
                        j <= names@.len(),
                        forall|k: int| 0 <= k < names@.len() ==> definable_layer(#[trigger] names@[k]@),
                        builder.layers_hierarchy@ == define_names(l0, names@.take(j as int)),
                        builder.blocks == b0.blocks,
                        builder.css_selectors_to_blocks == b0.css_selectors_to_blocks,
                        builder.font_faces == b0.font_faces,
                    decreases names@.len() - j,
                {
                    proof {
                        assert(definable_layer(names@[j as int]@));
                        assert(names@.take(j + 1).drop_last() =~= names@.take(j as int));
                    }
                    builder.layers_hierarchy.define_layer(names[j].as_str());
                    j = j + 1;
                }
                proof {
                    assert(names@.take(names@.len() as int) =~= names@);
                    x = apply_step(x, step);
                }
            },
            CssStyleSheetItem::RuleSet(r) => {
                let ghost x1 = x;
                load_ruleset(builder, report, r, Ghost(x1));
                proof {
                    x = apply_steps(x1, own);
                }
            },
            CssStyleSheetItem::FontFace(f) => {
                let ghost step = SheetStep::<S, P, D, V, E>::Font(f);
                proof {
                    lemma_apply_one(x, step);
                    assert(own[0] == step);
                }
                let ghost e0 = report.entries@;
                let FontFace { family_name, source, errors } = f;
                builder.register_font_face(family_name, source);
                let ghost es = errors@;
                let mut errs = errors;
                let mut j: usize = 0;
                let m = errs.len();
                while j < m
                    invariant
                        m == es.len(),
                        j <= m,
                        errs@ == es.skip(j as int),
                        report.entries@ == error_entries(e0, es.take(j as int)),
                    decreases m - j,
                {
                    assert(errs@[0] == es[j as int]);
                    let e = errs.remove(0);
                    report.add_error(e);
                    proof {
                        assert(es.take(j + 1).drop_last() =~= es.take(j as int));
                    }
                    j = j + 1;
                    assert(errs@ =~= es.skip(j as int));
                }
                proof {
                    assert(es.take(m as int) =~= es);
                    x = apply_step(x, step);
                }
            },
            CssStyleSheetItem::Inner(inner) => {
                let ghost x1 = x;
                load_items(builder, report, inner, Ghost(x1));
                proof {
                    x = apply_steps(x1, own);
                }
            },
            CssStyleSheetItem::Error(e) => {
                proof {
                    lemma_apply_one(x, SheetStep::Error(e));
                    assert(own[0] == SheetStep::<S, P, D, V, E>::Error(e));
                }
                report.add_error(e);
                proof {
                    x = apply_step(x, SheetStep::Error(e));
                }
            },
        }
        i = i + 1;
        assert(rest@ =~= is.skip(i as int));
    }
}

/// The state nothing was loaded into yet.
pub open spec fn empty_sheet<S, P, D, V, E>() -> SheetState<S, P, D, V, E> {
    SheetState { blocks: Seq::empty(), selectors: Seq::empty(), layers: Seq::empty(), font_faces: Seq::empty(), entries: Seq::empty() }
}

/// What becomes of a report with `entries`; see [`report_outcome`].
pub open spec fn outcome_of(mode: CssStyleLoaderErrorMode, entries: Seq<ReportEntry>) -> ReportOutcome {
    if has_error(entries) {
        match mode {
            CssStyleLoaderErrorMode::PrintWarn => ReportOutcome::Warn,
            CssStyleLoaderErrorMode::PrintError => ReportOutcome::Error,
            CssStyleLoaderErrorMode::ReturnError => ReportOutcome::Fail,
            CssStyleLoaderErrorMode::Ignore => ReportOutcome::Silent,
        }
    } else if entries.len() > 0 {
        ReportOutcome::Info
    } else {
        ReportOutcome::Silent
    }
}

/// Loads a style sheet from its items. The report gathers, in order, the
/// errors of what was read and the advice about ignored `!important`s; with
/// errors and the mode [`CssStyleLoaderErrorMode::ReturnError`] the load
/// fails with it. Otherwise the builder comes back with its empty blocks
/// removed, with what becomes of the report.
pub fn load_stylesheet<S: Clone, P, D, V, E>(
    items: Vec<CssStyleSheetItem<S, P, D, V, E>>,
    mode: CssStyleLoaderErrorMode,
) -> (r: Result<(StyleSheetBuilder<BuilderBlock<V, StyleBuilderProperty<P, D>, E>, S>, ReportOutcome, ErrorReport), ErrorReport>)
    requires
        steps_ready(items_steps(items@, 0)),
    ensures
        ({
            let x = apply_steps(empty_sheet(), items_steps(items@, 0));
            &&& (r is Err) <==> (mode == CssStyleLoaderErrorMode::ReturnError && has_error(x.entries))
            &&& r matches Err(report) ==> report.entries@ == x.entries
            &&& r matches Ok((b, outcome, report)) ==> {
                &&& report.entries@ == x.entries
                &&& outcome == outcome_of(mode, x.entries)
                &&& b.layers_hierarchy@ == x.layers
                &&& b.font_faces@ == x.font_faces
                &&& forall|k: int| 0 <= k < b.blocks@.len() ==> !(#[trigger] b.blocks@[k]).empty()
                &&& exists|bs: Seq<BuilderBlock<V, StyleBuilderProperty<P, D>, E>>, ss: Seq<(S, usize)>| {
                    &&& bs.map_values(|blk: BuilderBlock<V, StyleBuilderProperty<P, D>, E>| block_view(blk)) == x.blocks
                    &&& selectors_cloned(ss, x.selectors)
                    &&& b.blocks@ == kept_prefix(non_empty(), bs, bs.len() as int)
                    &&& b.css_selectors_to_blocks@ == remapped_upto(non_empty(), bs, bs.len() as int, ss)
                }
            }
        }),
{
    let mut builder: StyleSheetBuilder<BuilderBlock<V, StyleBuilderProperty<P, D>, E>, S> = StyleSheetBuilder::new();
    let mut report = ErrorReport::new();
    proof {
        let x0 = empty_sheet::<S, P, D, V, E>();
        assert(builder.blocks@.map_values(|blk: BuilderBlock<V, StyleBuilderProperty<P, D>, E>| block_view(blk)) =~= x0.blocks);
        assert(report.entries@ =~= x0.entries);
        assert(builder.font_faces@ =~= x0.font_faces);
    }
    load_items(&mut builder, &mut report, items, Ghost(empty_sheet()));
    let outcome = report_outcome(mode, &report);
    if outcome == ReportOutcome::Fail {
        return Err(report);
    }
    let ghost bs = builder.blocks@;
    let ghost ss = builder.css_selectors_to_blocks@;
    builder.remove_all_empty_blocks();
    Ok((builder, outcome, report))
}

/// A load fails exactly when errors were reported and the mode asks for
/// that; a report without errors is logged as information when it holds
/// advice and not at all when empty.
pub proof fn lemma_load_outcome(mode: CssStyleLoaderErrorMode, entries: Seq<ReportEntry>)
    ensures
        (outcome_of(mode, entries) == ReportOutcome::Fail) <==> (mode == CssStyleLoaderErrorMode::ReturnError && has_error(entries)),
        !has_error(entries) ==> (outcome_of(mode, entries) == ReportOutcome::Info) == (entries.len() > 0),
        entries.len() == 0 ==> outcome_of(mode, entries) == ReportOutcome::Silent,
        has_error(entries) && mode == CssStyleLoaderErrorMode::PrintWarn ==> outcome_of(mode, entries) == ReportOutcome::Warn,
        has_error(entries) && mode == CssStyleLoaderErrorMode::PrintError ==> outcome_of(mode, entries) == ReportOutcome::Error,
{
}

} // verus!

