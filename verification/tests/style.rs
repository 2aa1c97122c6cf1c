use superui_flair::animations::animation::{AnimationDirection, AnimationPlayState, IterationCount};
use superui_flair::animations::keyframes::{keyframe_fill_plan, KeyframeFill};
use superui_flair::animations::properties::{AnimationProperty, AnimationPropertyId, AnimationSpecificValue, TransitionPropertyId};
use superui_flair::builder::{BuilderBlock, StyleBuilderProperty, StyleFontFace, StyleSheetBuilder, StyleSheetBuilderError};
use superui_flair::css::font_face::FontFaceSource;
use superui_flair::cascade::{sort_by_cascade_order, CascadeEntry};
use superui_flair::components::marker::{StyleMarkers, StyleSystem};
use superui_flair::css::error::{CssError, CssErrorKind, SourceLocation};
use superui_flair::css::ruleset::{process_ruleset_property, report_important_level, CssRulesetProperty, ErrorReport, ImportantLevel, ReportEntry};
use superui_flair::css::shorthand::{
    parse_animation_shorthand, parse_transition_shorthand, AnimationShorthandToken, TransitionShorthandToken,
};
use superui_flair::placeholder::{FontFamilyNotFound, FontTypePlaceholder};
use superui_flair::pseudo_state::{NodePseudoState, NodePseudoStateSelector};
use superui_flair::css::ruleset::{report_outcome, CssStyleLoaderErrorMode, ReportOutcome};

type Block = BuilderBlock<u32, StyleBuilderProperty<u32, u32>, ()>;

fn empty_token() -> AnimationShorthandToken<&'static str> {
    AnimationShorthandToken {
        duration: None,
        direction: None,
        fill_mode: None,
        iteration_count: None,
        play_state: None,
        timing_function: None,
        name: None,
    }
}

#[test]
fn shorthand_reads_duration_then_delay() {
    // `3s ease-in 1s infinite reverse slide-in`
    let tokens = vec![
        AnimationShorthandToken { duration: Some(3), ..empty_token() },
        AnimationShorthandToken { timing_function: Some("ease-in"), name: Some("ease-in".into()), ..empty_token() },
        AnimationShorthandToken { duration: Some(1), ..empty_token() },
        AnimationShorthandToken { iteration_count: Some(IterationCount::Infinite), name: Some("infinite".into()), ..empty_token() },
        AnimationShorthandToken { direction: Some(AnimationDirection::Reverse), name: Some("reverse".into()), ..empty_token() },
        AnimationShorthandToken { name: Some("slide-in".into()), ..empty_token() },
    ];
    let (properties, read) = parse_animation_shorthand(tokens);
    assert_eq!(read, 6);
    assert_eq!(
        properties,
        vec![
            (AnimationPropertyId::Duration, AnimationSpecificValue::Duration(3)),
            (AnimationPropertyId::TimingFunction, AnimationSpecificValue::TimingFunction("ease-in")),
            (AnimationPropertyId::Delay, AnimationSpecificValue::Duration(1)),
            (AnimationPropertyId::IterationCount, AnimationSpecificValue::IterationCount(IterationCount::Infinite)),
            (AnimationPropertyId::Direction, AnimationSpecificValue::Direction(AnimationDirection::Reverse)),
            (AnimationPropertyId::Name, AnimationSpecificValue::Name("slide-in".into())),
        ]
    );
}

#[test]
fn shorthand_play_state_reads_next_token() {
    // `running slide` then a token nothing takes
    let tokens = vec![
        AnimationShorthandToken { play_state: Some(AnimationPlayState::Running), name: Some("running".into()), ..empty_token() },
        AnimationShorthandToken { name: Some("slide".into()), ..empty_token() },
        empty_token(),
    ];
    let (properties, read) = parse_animation_shorthand(tokens);
    assert_eq!(read, 2);
    assert_eq!(
        properties,
        vec![
            (AnimationPropertyId::PlayState, AnimationSpecificValue::PlayState(AnimationPlayState::Running)),
            (AnimationPropertyId::Name, AnimationSpecificValue::Name("slide".into())),
        ]
    );
}

#[test]
fn transition_shorthand_stops_at_repeat() {
    // `margin-right 2s ease-in-out 0.5s width`
    let tokens = vec![
        TransitionShorthandToken { duration: None, timing_function: None, property_name: Some("margin-right".to_string()) },
        TransitionShorthandToken { duration: Some(2), timing_function: None, property_name: None },
        TransitionShorthandToken { duration: None, timing_function: Some(1u8), property_name: Some("ease-in-out".to_string()) },
        TransitionShorthandToken { duration: Some(500), timing_function: None, property_name: None },
        TransitionShorthandToken { duration: None, timing_function: None, property_name: Some("width".to_string()) },
    ];
    let (properties, read) = parse_transition_shorthand(tokens);
    assert_eq!(read, 4);
    assert_eq!(
        properties,
        vec![
            (TransitionPropertyId::PropertyName, AnimationSpecificValue::Name("margin-right".to_string())),
            (TransitionPropertyId::Duration, AnimationSpecificValue::Duration(2)),
            (TransitionPropertyId::TimingFunction, AnimationSpecificValue::TimingFunction(1u8)),
            (TransitionPropertyId::Delay, AnimationSpecificValue::Duration(500)),
        ]
    );
}

#[test]
fn empty_blocks_are_removed_and_selectors_renumbered() {
    let mut builder: StyleSheetBuilder<Block, &str> = StyleSheetBuilder::new();
    let a = builder.new_ruleset();
    let b = builder.new_ruleset();
    let c = builder.new_ruleset();
    builder.blocks[a].add_property(StyleBuilderProperty::Specific(1));
    builder.blocks[c].add_var("color".to_string(), 7);
    builder.add_css_selector(a, ".a", "");
    builder.add_css_selector(b, ".b", "base");
    builder.add_css_selector(c, ".c", "base.inner");
    builder.add_css_selector(a, ".a2", "");
    builder.remove_all_empty_blocks();
    assert_eq!(builder.blocks.len(), 2);
    assert_eq!(builder.css_selectors_to_blocks, vec![(".a", 0), (".c", 1), (".a2", 0)]);
    assert_eq!(builder.layers_hierarchy.get_layers(), vec!["base.inner", "base"]);
    assert_eq!(builder.validate_no_orphan_block(), Ok(()));
}

#[test]
fn orphan_block_is_reported() {
    let mut builder: StyleSheetBuilder<Block, &str> = StyleSheetBuilder::new();
    let a = builder.new_ruleset();
    let _b = builder.new_ruleset();
    builder.add_css_selector(a, ".a", "");
    assert_eq!(builder.validate_no_orphan_block(), Err(StyleSheetBuilderError::OrphanBlock(1)));
    builder.remove_id(1);
    assert_eq!(builder.validate_no_orphan_block(), Ok(()));
}

#[test]
fn cascade_order_is_stable() {
    let entry = |layer_priority: usize, specificity: u32, item: &'static str| CascadeEntry { layer_priority, specificity, item };
    let sorted = sort_by_cascade_order(vec![
        entry(1, 10, "a"),
        entry(0, 5, "b"),
        entry(1, 1, "c"),
        entry(0, 5, "d"),
        entry(2, 0, "e"),
    ]);
    let items: Vec<&str> = sorted.iter().map(|e| e.item).collect();
    assert_eq!(items, vec!["b", "d", "c", "a", "e"]);
}

#[test]
fn style_markers_follow_the_pipeline() {
    let mut markers = StyleMarkers::default();
    assert!(markers.needs_reset());
    markers.set_needs_compute_property_values();
    assert!(markers.needs_reset());
    markers.finish_reset();
    assert!(markers.needs_calculate_style());
    markers.finish_calculate_style();
    markers.finish_resolve_property_values();
    markers.finish_compute_property_values();
    assert!(markers.needs_apply_pending_properties());
    markers.finish_apply_pending_properties();
    assert_eq!(markers.current_system, StyleSystem::Idle);
    markers.set_needs_resolve_property_values();
    assert!(markers.needs_resolve_property_values());
    markers.set_needs_resolve_property_values();
    assert!(markers.needs_resolve_property_values());
    markers.reset();
    markers.recalculate_style();
    assert!(markers.needs_calculate_style());
}

#[test]
fn keyframe_fill_plan_interpolates_gaps() {
    let plan = keyframe_fill_plan(&vec![false, true, false, false, true, false]);
    assert_eq!(
        plan,
        vec![
            KeyframeFill::CurrentValue,
            KeyframeFill::Defined,
            KeyframeFill::Interpolate { previous: 1, next: 4 },
            KeyframeFill::Interpolate { previous: 2, next: 4 },
            KeyframeFill::Defined,
            KeyframeFill::CurrentValue,
        ]
    );
    let plan = keyframe_fill_plan(&vec![true, false, false]);
    assert_eq!(plan[1], KeyframeFill::Interpolate { previous: 0, next: 2 });
}

#[test]
fn font_placeholder_resolves_by_family() {
    let faces = vec![("Comic Sans".to_string(), 1u32), ("Other".to_string(), 2), ("Comic Sans".to_string(), 3)];
    assert_eq!(FontTypePlaceholder::new("Comic Sans".to_string()).resolve_placeholder(&faces), Ok(3));
    assert_eq!(
        FontTypePlaceholder::new("Invalid Font".to_string()).resolve_placeholder(&faces),
        Err(FontFamilyNotFound("Invalid Font".to_string()))
    );
}

#[test]
fn pseudo_states_match() {
    let state = NodePseudoState { hovered: true, ..NodePseudoState::empty() };
    assert!(state.matches(NodePseudoStateSelector::Hovered));
    assert!(!state.matches(NodePseudoStateSelector::Pressed));
    assert!(!state.is_pressed());
    assert_eq!(NodePseudoStateSelector::FocusedAndVisible.to_css_string(), ":focus-visible");
}

#[test]
fn important_is_reported_as_advice() {
    let mut report = ErrorReport::new();
    let mut block: Block = BuilderBlock::new();
    let location = SourceLocation { line: 2, column: 5 };
    process_ruleset_property::<u32, u32, u32, (), ()>(
        CssRulesetProperty::MultipleProperties(vec![1, 2], ImportantLevel::Important(location)),
        &mut block,
        &mut report,
    );
    process_ruleset_property::<u32, u32, u32, (), ()>(
        CssRulesetProperty::Error(CssError::new_unlocated(CssErrorKind::UnexpectedToken)),
        &mut block,
        &mut report,
    );
    process_ruleset_property::<u32, u32, u32, (), ()>(
        CssRulesetProperty::AnimationProperty(AnimationProperty::new_specific_property(AnimationPropertyId::Name, vec![])),
        &mut block,
        &mut report,
    );
    process_ruleset_property::<u32, u32, u32, (), ()>(CssRulesetProperty::Var("x".to_string(), 9), &mut block, &mut report);
    assert_eq!(block.properties.len(), 2);
    assert_eq!(block.vars.len(), 1);
    assert_eq!(block.animation_properties.properties.len(), 1);
    assert_eq!(report.entries.len(), 2);
    assert!(matches!(report.entries[0], ReportEntry::Advice { location: l, .. } if l == location));
    assert!(report.contains_errors());
    report_important_level(&mut report, ImportantLevel::Normal);
    assert_eq!(report.entries.len(), 2);
    assert!(!block.is_empty());
}

#[test]
fn report_outcome_follows_the_mode() {
    let mut report = ErrorReport::new();
    assert_eq!(report_outcome(CssStyleLoaderErrorMode::ReturnError, &report), ReportOutcome::Silent);
    report_important_level(&mut report, ImportantLevel::Important(SourceLocation { line: 0, column: 3 }));
    assert_eq!(report_outcome(CssStyleLoaderErrorMode::ReturnError, &report), ReportOutcome::Info);
    report.add_error(CssError::new_unlocated(CssErrorKind::EndOfInput));
    assert_eq!(report_outcome(CssStyleLoaderErrorMode::ReturnError, &report), ReportOutcome::Fail);
    assert_eq!(report_outcome(CssStyleLoaderErrorMode::PrintWarn, &report), ReportOutcome::Warn);
    assert_eq!(report_outcome(CssStyleLoaderErrorMode::PrintError, &report), ReportOutcome::Error);
    assert_eq!(report_outcome(CssStyleLoaderErrorMode::Ignore, &report), ReportOutcome::Silent);
}

#[test]
fn font_faces_are_registered_in_order() {
    let mut builder: StyleSheetBuilder<Block, &str> = StyleSheetBuilder::new();
    builder.register_font_face("Poppins".to_string(), FontFaceSource::Local("Poppins".to_string()));
    builder.register_font_face("Mono".to_string(), FontFaceSource::Path("fonts/mono.ttf".to_string()));
    assert_eq!(
        builder.font_faces,
        vec![
            StyleFontFace { font_family: "Poppins".to_string(), source: FontFaceSource::Local("Poppins".to_string()) },
            StyleFontFace { font_family: "Mono".to_string(), source: FontFaceSource::Path("fonts/mono.ttf".to_string()) },
        ]
    );
    assert!(builder.blocks.is_empty());
}

#[test]
fn declaration_errors_become_parse_errors() {
    type Declaration = CssRulesetProperty<u32, u32, u32, (), ()>;
    let error = CssError::new_unlocated(CssErrorKind::InvalidDuration);
    assert!(matches!(Declaration::Error(error).into_parse_result(), Err(e) if e == error));
    assert!(matches!(
        Declaration::SingleProperty(3, ImportantLevel::Normal).into_parse_result(),
        Ok(CssRulesetProperty::SingleProperty(3, ImportantLevel::Normal))
    ));
}
