//! Declarations of a CSS ruleset: what each adds to the ruleset being built,
//! and what it adds to the report of errors and advice.

use vstd::prelude::*;
use crate::animations::properties::{AnimationProperty, AnimationPropertyId, TransitionPropertyId};
use crate::builder::{BuilderBlock, StyleBuilderProperty};
use crate::css::error::{CssError, CssErrorKind, SourceLocation};

verus! {

/// Whether a declaration carried `!important`, and where.
#[derive(Debug, Clone, Copy, PartialEq, Eq, Structural)]
pub enum ImportantLevel {
    /// No `!important`.
    Normal,
    /// `!important`, at this place.
    Important(SourceLocation),
}

/// One entry of a report.
#[derive(Debug, Clone, Copy)]
pub enum ReportEntry {
    /// An error.
    Error(CssError),
    /// Advice about something that was ignored.
    Advice {
        /// Where.
        location: SourceLocation,
        /// What.
        message: &'static str,
        /// What to do about it.
        help: &'static str,
    },
}

/// The errors and advice gathered while reading a style sheet, in order.
#[derive(Debug)]
pub struct ErrorReport {
    /// The entries, in order.
    pub entries: Vec<ReportEntry>,
}

/// The advice given for an `!important` at `location`: it is not supported.
pub open spec fn important_advice(location: SourceLocation) -> ReportEntry {
    ReportEntry::Advice {
        location,
        message: "!important is not supported",
        help: "!important token is being ignored, so you can remove it",
    }
}

/// The report after noting an `!important` level: advice when present.
pub open spec fn with_important_level(entries: Seq<ReportEntry>, level: ImportantLevel) -> Seq<ReportEntry> {
    match level {
        ImportantLevel::Important(location) => entries.push(important_advice(location)),
        ImportantLevel::Normal => entries,
    }
}

impl ErrorReport {
    /// An empty report.
    pub fn new() -> (r: ErrorReport)
        ensures
            r.entries@.len() == 0,
    {
        ErrorReport { entries: Vec::new() }
    }

    /// Adds an error.
    pub fn add_error(&mut self, error: CssError)
        ensures
            final(self).entries@ == old(self).entries@.push(ReportEntry::Error(error)),
    {
        self.entries.push(ReportEntry::Error(error));
    }

    /// Whether an error was reported.
    pub fn contains_errors(&self) -> (r: bool)
        ensures
            r == exists|i: int| 0 <= i < self.entries@.len() && #[trigger] self.entries@[i] is Error,
    {
        let mut i: usize = 0;
        while i < self.entries.len()
            invariant
                i <= self.entries@.len(),
                forall|k: int| 0 <= k < i ==> !(#[trigger] self.entries@[k] is Error),
            decreases self.entries.len() - i,
        {
            if let ReportEntry::Error(_) = self.entries[i] {
                return true;
            }
            i = i + 1;
        }
        false
    }

    /// Whether the report is empty.
    pub fn is_empty(&self) -> (r: bool)
        ensures
            r == (self.entries@.len() == 0),
    {
        self.entries.len() == 0
    }
}

/// Notes that `!important` was ignored, when it was given.
pub fn report_important_level(report_generator: &mut ErrorReport, level: ImportantLevel)
    ensures
        final(report_generator).entries@ == with_important_level(old(report_generator).entries@, level),
{
    if let ImportantLevel::Important(location) = level {
        report_generator.entries.push(ReportEntry::Advice {
            location,
            message: "!important is not supported",
            help: "!important token is being ignored, so you can remove it",
        });
    }
}

/// A declaration of a ruleset: properties with their values `P`, a property
/// parsed at run time `D`, animation and transition declarations (timing
/// functions `E`), a variable with its tokens `V`, a nested ruleset `N`, or
/// an error.
#[derive(Debug)]
pub enum CssRulesetProperty<P, D, V, E, N> {
    /// One property.
    SingleProperty(P, ImportantLevel),
    /// The properties a shorthand sets.
    MultipleProperties(Vec<P>, ImportantLevel),
    /// A property parsed at run time.
    DynamicProperty(D, ImportantLevel),
    /// An `animation-*` declaration.
    AnimationProperty(AnimationProperty<AnimationPropertyId, E>),
    /// A `transition-*` declaration.
    TransitionProperty(AnimationProperty<TransitionPropertyId, E>),
    /// A variable.
    Var(String, V),
    /// A nested ruleset.
    NestedRuleset(N),
    /// A declaration that could not be read.
    Error(CssError),
}

impl<P, D, V, E, N> CssRulesetProperty<P, D, V, E, N> {
    /// An error declaration becomes its error; any other stays as it is.
    pub fn into_parse_result(self) -> (r: Result<CssRulesetProperty<P, D, V, E, N>, CssError>)
        ensures
            match self {
                CssRulesetProperty::Error(e) => r == Err::<CssRulesetProperty<P, D, V, E, N>, CssError>(e),
                _ => r == Ok::<CssRulesetProperty<P, D, V, E, N>, CssError>(self),
            },
    {
        match self {
            CssRulesetProperty::Error(error) => Err(error),
            other => Ok(other),
        }
    }
}

/// The properties `ps`, each as a specific property.
pub open spec fn specific_properties<P, D>(ps: Seq<P>) -> Seq<StyleBuilderProperty<P, D>> {
    Seq::new(ps.len(), |i: int| StyleBuilderProperty::<P, D>::Specific(ps[i]))
}

/// Adds a declaration to the ruleset `ruleset_builder` and notes in the report
/// what is ignored or wrong: properties, variables and animation declarations
/// go to the ruleset, an `!important` level is noted as advice, errors are
/// reported. A nested ruleset is handled by the caller.
pub fn process_ruleset_property<P, D, V, E, N>(
    property: CssRulesetProperty<P, D, V, E, N>,
    ruleset_builder: &mut BuilderBlock<V, StyleBuilderProperty<P, D>, E>,
    report_generator: &mut ErrorReport,
)
    requires
        !(property is NestedRuleset),
    ensures
        match property {
            CssRulesetProperty::SingleProperty(p, level) => {
                &&& final(ruleset_builder).properties@ == old(ruleset_builder).properties@.push(StyleBuilderProperty::Specific(p))
                &&& final(report_generator).entries@ == with_important_level(old(report_generator).entries@, level)
            },
            CssRulesetProperty::MultipleProperties(ps, level) => {
                &&& final(ruleset_builder).properties@ == old(ruleset_builder).properties@ + specific_properties::<P, D>(ps@)
                &&& final(report_generator).entries@ == with_important_level(old(report_generator).entries@, level)
            },
            CssRulesetProperty::DynamicProperty(d, level) => {
                &&& final(ruleset_builder).properties@ == old(ruleset_builder).properties@.push(StyleBuilderProperty::Dynamic(d))
                &&& final(report_generator).entries@ == with_important_level(old(report_generator).entries@, level)
            },
            CssRulesetProperty::Error(e) => {
                &&& final(ruleset_builder).properties@ == old(ruleset_builder).properties@
                &&& final(report_generator).entries@ == old(report_generator).entries@.push(ReportEntry::Error(e))
            },
            _ => {
                &&& final(ruleset_builder).properties@ == old(ruleset_builder).properties@
                &&& final(report_generator).entries@ == old(report_generator).entries@
            },
        },
        match property {
            CssRulesetProperty::Var(name, tokens) => final(ruleset_builder).vars@ == old(ruleset_builder).vars@.push((name, tokens)),
            _ => final(ruleset_builder).vars@ == old(ruleset_builder).vars@,
        },
        match property {
            CssRulesetProperty::AnimationProperty(a) => final(ruleset_builder).animation_properties.properties@
                == old(ruleset_builder).animation_properties.properties@.push(a),
            _ => final(ruleset_builder).animation_properties.properties@
                == old(ruleset_builder).animation_properties.properties@,
        },
        match property {
            CssRulesetProperty::TransitionProperty(t) => final(ruleset_builder).transition_properties.properties@
                == old(ruleset_builder).transition_properties.properties@.push(t),
            _ => final(ruleset_builder).transition_properties.properties@
                == old(ruleset_builder).transition_properties.properties@,
        },
{
    match property {
        CssRulesetProperty::SingleProperty(p, important_level) => {
            ruleset_builder.add_property(StyleBuilderProperty::Specific(p));
            report_important_level(report_generator, important_level);
        },
        CssRulesetProperty::MultipleProperties(properties, important_level) => {
            let ghost ps = properties@;
            let mut converted: Vec<StyleBuilderProperty<P, D>> = Vec::new();
            let mut rest = properties;
            let ghost mut t: int = 0;
            while rest.len() > 0
                invariant
                    0 <= t <= ps.len(),
                    rest@ == ps.skip(t),
                    converted@ == specific_properties::<P, D>(ps.take(t)),
                decreases rest.len(),
            {
                assert(rest@[0] == ps[t]);
                let p = rest.remove(0);
                converted.push(StyleBuilderProperty::Specific(p));
                proof {
                    t = t + 1;
                }
                assert(rest@ =~= ps.skip(t));
                assert(converted@ =~= specific_properties::<P, D>(ps.take(t)));
            }
            assert(ps.take(t) =~= ps);
            ruleset_builder.add_properties(converted);
            report_important_level(report_generator, important_level);
        },
        CssRulesetProperty::DynamicProperty(d, important_level) => {
            ruleset_builder.add_property(StyleBuilderProperty::Dynamic(d));
            report_important_level(report_generator, important_level);
        },
        CssRulesetProperty::AnimationProperty(a) => {
            ruleset_builder.add_animation_property(a);
        },
        CssRulesetProperty::TransitionProperty(t) => {
            ruleset_builder.add_transition_property(t);
        },
        CssRulesetProperty::Var(var_name, tokens) => {
            ruleset_builder.add_var(var_name, tokens);
        },
        CssRulesetProperty::NestedRuleset(_) => {},
        CssRulesetProperty::Error(error) => {
            report_generator.add_error(error);
        },
    }
}

/// What the loader does with a report that holds errors.
#[derive(Debug, Clone, Copy, PartialEq, Eq, Structural)]
pub enum CssStyleLoaderErrorMode {
    /// Log the report as a warning.
    PrintWarn,
    /// Log the report as an error.
    PrintError,
    /// Fail with the report.
    ReturnError,
    /// Say nothing.
    Ignore,
}

/// What becomes of a report once the style sheet is read.
#[derive(Debug, Clone, Copy, PartialEq, Eq, Structural)]
pub enum ReportOutcome {
    /// Log it as a warning and keep the style sheet.
    Warn,
    /// Log it as an error and keep the style sheet.
    Error,
    /// Fail with it.
    Fail,
    /// Keep the style sheet and say nothing.
    Silent,
    /// Log the advice it holds and keep the style sheet.
    Info,
}

/// Whether a report holds an error.
pub open spec fn has_error(entries: Seq<ReportEntry>) -> bool {
    exists|i: int| 0 <= i < entries.len() && #[trigger] entries[i] is Error
}

/// What becomes of a report: with errors, the mode decides; with advice
/// only, it is logged; an empty report is not.
pub fn report_outcome(mode: CssStyleLoaderErrorMode, report: &ErrorReport) -> (r: ReportOutcome)
    ensures
        has_error(report.entries@) ==> r == match mode {
            CssStyleLoaderErrorMode::PrintWarn => ReportOutcome::Warn,
            CssStyleLoaderErrorMode::PrintError => ReportOutcome::Error,
            CssStyleLoaderErrorMode::ReturnError => ReportOutcome::Fail,
            CssStyleLoaderErrorMode::Ignore => ReportOutcome::Silent,
        },
        !has_error(report.entries@) ==> r == if report.entries@.len() > 0 { ReportOutcome::Info } else { ReportOutcome::Silent },
{
    if report.contains_errors() {
        match mode {
            CssStyleLoaderErrorMode::PrintWarn => ReportOutcome::Warn,
            CssStyleLoaderErrorMode::PrintError => ReportOutcome::Error,
            CssStyleLoaderErrorMode::ReturnError => ReportOutcome::Fail,
            CssStyleLoaderErrorMode::Ignore => ReportOutcome::Silent,
        }
    } else if !report.is_empty() {
        ReportOutcome::Info
    } else {
        ReportOutcome::Silent
    }
}

/// How a declaration is read, from what its property name is.
#[derive(Debug, Clone, Copy, PartialEq, Eq, Structural)]
pub enum DeclarationReading {
    /// As a shorthand, setting several properties.
    Shorthand,
    /// As one property.
    Property,
    /// Not at all: no property or shorthand has the name.
    NotRecognized,
    /// Not at all: the property's type cannot be read.
    NotParseable,
}

/// How a declaration is read: a shorthand first, then a known property
/// whose type can be read.
pub open spec fn declaration_reading_spec(is_shorthand: bool, known: bool, parseable: bool) -> DeclarationReading {
    if is_shorthand {
        DeclarationReading::Shorthand
    } else if !known {
        DeclarationReading::NotRecognized
    } else if !parseable {
        DeclarationReading::NotParseable
    } else {
        DeclarationReading::Property
    }
}

/// Decides how a declaration is read: `is_shorthand` whether a shorthand has
/// its name, `known` whether a property does, `parseable` whether that
/// property's type can be read.
pub fn declaration_reading(is_shorthand: bool, known: bool, parseable: bool) -> (r: DeclarationReading)
    ensures
        r == declaration_reading_spec(is_shorthand, known, parseable),
{
    if is_shorthand {
        DeclarationReading::Shorthand
    } else if !known {
        DeclarationReading::NotRecognized
    } else if !parseable {
        DeclarationReading::NotParseable
    } else {
        DeclarationReading::Property
    }
}

/// The values a declaration's value read as: one property's, or those a
/// shorthand sets.
#[derive(Debug)]
pub enum ParsedValue<P> {
    /// One property and its value.
    One(P),
    /// The properties a shorthand sets, with their values.
    Many(Vec<P>),
}

/// The declaration a ruleset gets. A name nothing has, or a type that cannot
/// be read, is an error at no known place. Otherwise the values read are
/// used, with their `!important` level; when they did not read and the
/// value held `var()`, the value read as variable tokens is used (`var_read`,
/// or its error); otherwise the error met reading the values.
pub open spec fn ruleset_declaration_spec<P, D, V, E, N>(
    reading: DeclarationReading,
    parsed: Result<(ParsedValue<P>, ImportantLevel), CssError>,
    seen_var: bool,
    var_read: Result<(D, ImportantLevel), CssError>,
) -> CssRulesetProperty<P, D, V, E, N> {
    match reading {
        DeclarationReading::NotRecognized => CssRulesetProperty::Error(
            CssError { kind: CssErrorKind::PropertyNotRecognized, location: None }),
        DeclarationReading::NotParseable => CssRulesetProperty::Error(
            CssError { kind: CssErrorKind::NonParseableType, location: None }),
        _ => match parsed {
            Ok((ParsedValue::One(p), level)) => CssRulesetProperty::SingleProperty(p, level),
            Ok((ParsedValue::Many(ps), level)) => CssRulesetProperty::MultipleProperties(ps, level),
            Err(e) => if seen_var {
                match var_read {
                    Ok((d, level)) => CssRulesetProperty::DynamicProperty(d, level),
                    Err(e2) => CssRulesetProperty::Error(e2),
                }
            } else {
                CssRulesetProperty::Error(e)
            },
        },
    }
}

/// The declaration a ruleset gets, once its name was looked up (`reading`),
/// its value read (`parsed`), and, where that failed with `var()` in the
/// value, read again as variable tokens (`var_read`).
pub fn ruleset_declaration<P, D, V, E, N>(
    reading: DeclarationReading,
    parsed: Result<(ParsedValue<P>, ImportantLevel), CssError>,
    seen_var: bool,
    var_read: Result<(D, ImportantLevel), CssError>,
) -> (r: CssRulesetProperty<P, D, V, E, N>)
    ensures
        r == ruleset_declaration_spec::<P, D, V, E, N>(reading, parsed, seen_var, var_read),
{
    match reading {
        DeclarationReading::NotRecognized => CssRulesetProperty::Error(
            CssError::new_unlocated(CssErrorKind::PropertyNotRecognized)),
        DeclarationReading::NotParseable => CssRulesetProperty::Error(
            CssError::new_unlocated(CssErrorKind::NonParseableType)),
        _ => match parsed {
            Ok((ParsedValue::One(p), level)) => CssRulesetProperty::SingleProperty(p, level),
            Ok((ParsedValue::Many(ps), level)) => CssRulesetProperty::MultipleProperties(ps, level),
            Err(e) => if seen_var {
                match var_read {
                    Ok((d, level)) => CssRulesetProperty::DynamicProperty(d, level),
                    Err(e2) => CssRulesetProperty::Error(e2),
                }
            } else {
                CssRulesetProperty::Error(e)
            },
        },
    }
}

/// What a ruleset gets from a declaration: a name that no property or
/// shorthand has is never read, whatever its value; a value that read is
/// used with its `!important` level and is no error; a value that did not
/// read gives variable tokens only when it held `var()`, and otherwise its
/// own error.
pub proof fn lemma_ruleset_declaration<P, D, V, E, N>(
    reading: DeclarationReading,
    parsed: Result<(ParsedValue<P>, ImportantLevel), CssError>,
    seen_var: bool,
    var_read: Result<(D, ImportantLevel), CssError>,
)
    ensures
        ({
            let r = ruleset_declaration_spec::<P, D, V, E, N>(reading, parsed, seen_var, var_read);
            &&& reading == DeclarationReading::NotRecognized ==> r == CssRulesetProperty::<P, D, V, E, N>::Error(
                CssError { kind: CssErrorKind::PropertyNotRecognized, location: None })
            &&& reading == DeclarationReading::NotParseable ==> r == CssRulesetProperty::<P, D, V, E, N>::Error(
                CssError { kind: CssErrorKind::NonParseableType, location: None })
            &&& (reading == DeclarationReading::Shorthand || reading == DeclarationReading::Property) ==> {
                &&& parsed matches Ok((ParsedValue::One(p), level)) ==> r == CssRulesetProperty::<P, D, V, E, N>::SingleProperty(p, level)
                &&& parsed matches Ok((ParsedValue::Many(ps), level)) ==> r == CssRulesetProperty::<P, D, V, E, N>::MultipleProperties(ps, level)
                &&& match parsed {
                    Err(e) => !seen_var ==> r == CssRulesetProperty::<P, D, V, E, N>::Error(e),
                    _ => true,
                }
                &&& parsed is Err && seen_var ==> (r is DynamicProperty <==> var_read is Ok)
                &&& r is DynamicProperty ==> parsed is Err && seen_var
            }
        }),
{
}

/// A shorthand name is read as the shorthand even when a property has it;
/// a name nothing has is not recognized, whether or not it could be read.
pub proof fn lemma_declaration_reading(known: bool, parseable: bool)
    ensures
        declaration_reading_spec(true, known, parseable) == DeclarationReading::Shorthand,
        declaration_reading_spec(false, false, parseable) == DeclarationReading::NotRecognized,
        declaration_reading_spec(false, true, false) == DeclarationReading::NotParseable,
        declaration_reading_spec(false, true, true) == DeclarationReading::Property,
{
}

} // verus!

