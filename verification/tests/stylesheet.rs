use cssparser::{Parser, ParserInput};
use superui_flair::animations::keyframes::{keep_keyframe_property, keyframe_timing_function};
use superui_flair::animations::properties::AnimationSpecificValue;
use superui_flair::builder::StyleBuilderProperty;
use superui_flair::components::computed::{computed_change, ChangeChoice};
use superui_flair::css::animation_property::{split_items, ValuePart};
use superui_flair::css::error::{CssError, CssErrorKind, SourceLocation};
use superui_flair::css::font_face::{FontFace, FontFaceSource};
use superui_flair::css::input::{read_source, source_from_function, CssToken, SourceRead};
use superui_flair::css::ruleset::{
    declaration_reading, ruleset_declaration, CssRulesetProperty, CssStyleLoaderErrorMode, DeclarationReading,
    ImportantLevel, ParsedValue, ReportEntry, ReportOutcome,
};
use superui_flair::css::stylesheet::{load_stylesheet, CssRuleset, CssStyleSheetItem};

type Decl = CssRulesetProperty<u32, u8, String, u8, CssRuleset<String, u32, u8, String, u8>>;
type Item = CssStyleSheetItem<String, u32, u8, String, u8>;

fn at(line: u32, column: u32) -> SourceLocation {
    SourceLocation { line, column }
}

fn ruleset(selectors: &[(&str, &str)], properties: Vec<Decl>) -> CssRuleset<String, u32, u8, String, u8> {
    CssRuleset {
        selectors: Ok(selectors.iter().map(|(s, l)| (s.to_string(), l.to_string())).collect()),
        properties,
    }
}

#[test]
fn nested_ruleset_splits_parent_blocks() {
    let nested = ruleset(&[(".a .b", "")], vec![CssRulesetProperty::SingleProperty(2, ImportantLevel::Normal)]);
    let items: Vec<Item> = vec![CssStyleSheetItem::RuleSet(ruleset(
        &[(".a", "")],
        vec![
            CssRulesetProperty::SingleProperty(1, ImportantLevel::Normal),
            CssRulesetProperty::NestedRuleset(nested),
            CssRulesetProperty::SingleProperty(3, ImportantLevel::Normal),
        ],
    ))];
    let (builder, outcome, report) = load_stylesheet(items, CssStyleLoaderErrorMode::ReturnError).unwrap();
    assert_eq!(outcome, ReportOutcome::Silent);
    assert!(report.entries.is_empty());
    assert_eq!(builder.blocks.len(), 3);
    let firsts: Vec<u32> = builder
        .blocks
        .iter()
        .map(|b| match &b.properties[0] {
            StyleBuilderProperty::Specific(p) => *p,
            StyleBuilderProperty::Dynamic(_) => 0,
        })
        .collect();
    assert_eq!(firsts, vec![1, 2, 3]);
    let selectors: Vec<(String, usize)> = builder.css_selectors_to_blocks.clone();
    assert_eq!(
        selectors,
        vec![(".a".to_string(), 0), (".a .b".to_string(), 1), (".a".to_string(), 2)]
    );
}

#[test]
fn empty_blocks_are_dropped_after_loading() {
    let nested = ruleset(&[(".a .b", "")], vec![CssRulesetProperty::SingleProperty(2, ImportantLevel::Normal)]);
    let items: Vec<Item> = vec![CssStyleSheetItem::RuleSet(ruleset(
        &[(".a", "")],
        vec![CssRulesetProperty::NestedRuleset(nested)],
    ))];
    let (builder, _, _) = load_stylesheet(items, CssStyleLoaderErrorMode::Ignore).unwrap();
    assert_eq!(builder.blocks.len(), 1);
    assert_eq!(builder.css_selectors_to_blocks, vec![(".a .b".to_string(), 0)]);
}

#[test]
fn errors_fail_the_load_only_when_asked() {
    let bad = CssError::new_located(CssErrorKind::UnexpectedToken, at(1, 1));
    let make = || -> Vec<Item> {
        vec![
            CssStyleSheetItem::RuleSet(CssRuleset {
                selectors: Err(bad),
                properties: vec![CssRulesetProperty::Error(CssError::new_unlocated(CssErrorKind::InvalidDuration))],
            }),
            CssStyleSheetItem::Error(CssError::new_unlocated(CssErrorKind::EndOfInput)),
        ]
    };
    let report = load_stylesheet(make(), CssStyleLoaderErrorMode::ReturnError).unwrap_err();
    assert_eq!(report.entries.len(), 3);
    assert!(matches!(report.entries[0], ReportEntry::Error(e) if e == bad));
    let (builder, outcome, report) = load_stylesheet(make(), CssStyleLoaderErrorMode::PrintWarn).unwrap();
    assert_eq!(outcome, ReportOutcome::Warn);
    assert_eq!(report.entries.len(), 3);
    assert!(builder.blocks.is_empty());
}

#[test]
fn layers_and_font_faces_are_loaded_in_order() {
    let items: Vec<Item> = vec![
        CssStyleSheetItem::LayersDefinition(vec!["base".to_string(), "theme".to_string()]),
        CssStyleSheetItem::Inner(vec![CssStyleSheetItem::RuleSet(ruleset(
            &[(".x", "base.inner")],
            vec![CssRulesetProperty::SingleProperty(7, ImportantLevel::Important(at(2, 5)))],
        ))]),
        CssStyleSheetItem::FontFace(FontFace {
            family_name: "Mono".to_string(),
            source: FontFaceSource::Local("Mono".to_string()),
            errors: vec![CssError::new_unlocated(CssErrorKind::UnexpectedFontFaceProperty)],
        }),
    ];
    let (builder, outcome, report) = load_stylesheet(items, CssStyleLoaderErrorMode::PrintError).unwrap();
    assert_eq!(outcome, ReportOutcome::Error);
    assert_eq!(builder.layers_hierarchy.get_layers(), vec!["base.inner", "base", "theme"]);
    assert_eq!(builder.font_faces.len(), 1);
    assert_eq!(report.entries.len(), 2);
    assert!(matches!(report.entries[0], ReportEntry::Advice { .. }));
}

#[test]
fn advice_alone_is_logged_as_info() {
    let items: Vec<Item> = vec![CssStyleSheetItem::RuleSet(ruleset(
        &[(".x", "")],
        vec![CssRulesetProperty::SingleProperty(7, ImportantLevel::Important(at(0, 9)))],
    ))];
    let (_, outcome, _) = load_stylesheet(items, CssStyleLoaderErrorMode::ReturnError).unwrap();
    assert_eq!(outcome, ReportOutcome::Info);
}

#[test]
fn declaration_reading_order() {
    assert_eq!(declaration_reading(true, false, false), DeclarationReading::Shorthand);
    assert_eq!(declaration_reading(false, false, true), DeclarationReading::NotRecognized);
    assert_eq!(declaration_reading(false, true, false), DeclarationReading::NotParseable);
    assert_eq!(declaration_reading(false, true, true), DeclarationReading::Property);
}

#[test]
fn ruleset_declaration_outcomes() {
    let err = CssError::new_located(CssErrorKind::UnexpectedToken, at(0, 3));
    let d: Decl = ruleset_declaration(DeclarationReading::NotRecognized, Ok((ParsedValue::One(1), ImportantLevel::Normal)), false, Err(err));
    assert!(matches!(d, CssRulesetProperty::Error(e) if e.kind == CssErrorKind::PropertyNotRecognized && e.location.is_none()));
    let d: Decl = ruleset_declaration(DeclarationReading::Shorthand, Ok((ParsedValue::Many(vec![1, 2]), ImportantLevel::Normal)), false, Err(err));
    assert!(matches!(d, CssRulesetProperty::MultipleProperties(ref v, _) if *v == vec![1, 2]));
    let d: Decl = ruleset_declaration(DeclarationReading::Property, Err(err), true, Ok((9, ImportantLevel::Normal)));
    assert!(matches!(d, CssRulesetProperty::DynamicProperty(9, ImportantLevel::Normal)));
    let d: Decl = ruleset_declaration(DeclarationReading::Property, Err(err), false, Ok((9, ImportantLevel::Normal)));
    assert!(matches!(d, CssRulesetProperty::Error(e) if e == err));
    let d: Decl = ruleset_declaration(DeclarationReading::NotParseable, Err(err), true, Ok((9, ImportantLevel::Normal)));
    assert!(matches!(d, CssRulesetProperty::Error(e) if e.kind == CssErrorKind::NonParseableType));
}

#[test]
fn computed_change_choices() {
    assert_eq!(computed_change(true, false, false, false, false), ChangeChoice::Pending);
    assert_eq!(computed_change(false, false, false, false, false), ChangeChoice::Keep);
    assert_eq!(computed_change(true, true, true, false, false), ChangeChoice::Animation);
    assert_eq!(computed_change(true, true, false, false, false), ChangeChoice::Keep);
    assert_eq!(computed_change(false, false, false, true, true), ChangeChoice::Pending);
    assert_eq!(computed_change(true, false, false, true, false), ChangeChoice::Keep);
}

#[test]
fn keyframe_decisions() {
    assert!(keep_keyframe_property(&vec![true, true, true]));
    assert!(!keep_keyframe_property(&vec![true, false, true]));
    let given: Option<Result<Vec<AnimationSpecificValue<u8>>, CssError>> =
        Some(Ok(vec![AnimationSpecificValue::TimingFunction(4)]));
    assert_eq!(keyframe_timing_function(given, 1), 4);
    assert_eq!(keyframe_timing_function(None, 1), 1);
    let failed: Option<Result<Vec<AnimationSpecificValue<u8>>, CssError>> =
        Some(Err(CssError::new_unlocated(CssErrorKind::InvalidInput)));
    assert_eq!(keyframe_timing_function(failed, 1), 1);
    let other: Option<Result<Vec<AnimationSpecificValue<u8>>, CssError>> =
        Some(Ok(vec![AnimationSpecificValue::Duration(5)]));
    assert_eq!(keyframe_timing_function(other, 1), 1);
}

#[test]
fn split_items_by_commas() {
    let parts = vec![
        (ValuePart::Value(1u8), at(0, 1)),
        (ValuePart::Value(2u8), at(0, 3)),
        (ValuePart::Comma, at(0, 4)),
        (ValuePart::Value(3u8), at(0, 6)),
        (ValuePart::Important, at(0, 8)),
    ];
    assert_eq!(split_items(parts).unwrap(), vec![vec![1, 2], vec![3]]);
    assert_eq!(split_items::<u8>(vec![]).unwrap(), Vec::<Vec<u8>>::new());
    let after_important = vec![(ValuePart::Important, at(0, 1)), (ValuePart::Value(1u8), at(0, 12))];
    assert_eq!(
        split_items(after_important).unwrap_err(),
        CssError::new_located(CssErrorKind::UnexpectedToken, at(0, 12))
    );
    let other = vec![(ValuePart::Value(1u8), at(0, 1)), (ValuePart::Other, at(0, 3))];
    assert_eq!(split_items(other).unwrap_err(), CssError::new_located(CssErrorKind::UnexpectedToken, at(0, 3)));
}

#[test]
fn source_functions_are_told_apart() {
    let ok: Result<String, CssError> = Ok("a.ttf".to_string());
    assert_eq!(source_from_function("URL".to_string(), ok.clone()), SourceRead::Function("URL".to_string(), ok.clone()));
    assert_eq!(
        source_from_function("format".to_string(), ok),
        SourceRead::Token(CssToken::Function("format".to_string()))
    );
}

#[test]
fn read_source_reads_url_and_local() {
    let mut input = ParserInput::new("url(\"a.ttf\")");
    let mut parser = Parser::new(&mut input);
    assert_eq!(read_source(&mut parser).unwrap(), SourceRead::Function("url".to_string(), Ok("a.ttf".to_string())));
    let mut input = ParserInput::new("local(\"Mono\")");
    let mut parser = Parser::new(&mut input);
    assert_eq!(read_source(&mut parser).unwrap(), SourceRead::Function("local".to_string(), Ok("Mono".to_string())));
    let mut input = ParserInput::new("\"b.ttf\"");
    let mut parser = Parser::new(&mut input);
    assert_eq!(read_source(&mut parser).unwrap(), SourceRead::Token(CssToken::QuotedString("b.ttf".to_string())));
}
