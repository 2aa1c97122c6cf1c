use superui_flair::layers::{LayersHierarchy, ParsedLayer};

#[test]
fn parsed_test() {
    let parsed = ParsedLayer::parse("simple");

    assert_eq!(parsed.name, "simple");
    assert!(parsed.parents.is_empty());
    assert_eq!(parsed.parents.capacity(), 0);

    let parsed = ParsedLayer::parse("parent.child");

    assert_eq!(parsed.name, "child");
    assert_eq!(parsed.parents, vec!["parent"]);

    let parsed = ParsedLayer::parse("multiple.parents.child");

    assert_eq!(parsed.name, "child");
    assert_eq!(parsed.parents, vec!["multiple", "multiple.parents"]);
}

#[test]
fn simple_layers() {
    let mut layers = LayersHierarchy::new();
    layers.define_layer("first");
    layers.define_layer("second");
    layers.define_layer("last");

    // These are repeated so they should be ignored
    layers.define_layer("first");
    layers.define_layer("second");

    assert_eq!(layers.get_layers(), vec!["first", "second", "last"]);

    assert_eq!(layers.get_layer_priority("first"), 0);
    assert_eq!(layers.get_layer_priority("last"), 2);
    // Highest priority
    assert_eq!(layers.get_layer_priority(""), 3);
}

#[test]
fn layers_with_one_parent() {
    let mut layers = LayersHierarchy::new();
    layers.define_layer("first");
    layers.define_layer("second");
    layers.define_layer("last");

    layers.define_layer("first.inner_1");
    layers.define_layer("first.inner_2");

    // These are repeated so they should be ignored
    layers.define_layer("first");
    layers.define_layer("second");
    layers.define_layer("first.inner_2");

    // We have not defined `undefined`, but it gets defined automatically
    layers.define_layer("undefined.inner_1");

    assert_eq!(
        layers.get_layers(),
        vec![
            "first.inner_1",
            "first.inner_2",
            "first",
            "second",
            "last",
            "undefined.inner_1",
            "undefined"
        ]
    );
}

#[test]
fn layers_with_multiple_parents() {
    let mut layers = LayersHierarchy::new();
    layers.define_layer("first");
    layers.define_layer("second");

    layers.define_layer("first.middle_1");
    layers.define_layer("first.middle_2");

    layers.define_layer("last");

    layers.define_layer("second.middle_1");
    layers.define_layer("second.middle_2");

    layers.define_layer("second.middle_1.child_1");
    layers.define_layer("second.middle_2.child_1");
    layers.define_layer("first.middle_1.child_1");
    layers.define_layer("first.middle_2.child_1");
    layers.define_layer("first.middle_1.child_2");
    layers.define_layer("first.middle_2.child_2");
    layers.define_layer("second.middle_1.child_2");
    layers.define_layer("second.middle_2.child_2");

    // These are repeated so they should be ignored
    layers.define_layer("first");
    layers.define_layer("second");
    layers.define_layer("first.middle_1.child_2");
    layers.define_layer("last");

    let expected = vec![
        "first.middle_1.child_1",
        "first.middle_1.child_2",
        "first.middle_1",
        "first.middle_2.child_1",
        "first.middle_2.child_2",
        "first.middle_2",
        "first",
        "second.middle_1.child_1",
        "second.middle_1.child_2",
        "second.middle_1",
        "second.middle_2.child_1",
        "second.middle_2.child_2",
        "second.middle_2",
        "second",
        "last",
    ];

    assert_eq!(layers.get_layers(), expected);

    let mut sorted = layers.get_layers();
    sorted.sort_by(|a, b| layers.cmp_layers(a, b));
    assert_eq!(sorted, expected);
}

#[test]
fn nested_layer_ranks_below_parent() {
    let mut layers = LayersHierarchy::new();
    layers.define_layer("base.inner");
    assert!(layers.get_layer_priority("base.inner") < layers.get_layer_priority("base"));
    assert!(layers.is_layer_defined("base"));
    assert_eq!(layers.cmp_layers("base", ""), std::cmp::Ordering::Less);
    assert_eq!(layers.cmp_layers("base", "base"), std::cmp::Ordering::Equal);
}

#[test]
fn redefining_keeps_order() {
    let mut layers = LayersHierarchy::default();
    layers.define_layer("a");
    layers.define_layer("b");
    layers.define_layer("a.x");
    layers.define_layer("a.x");
    assert_eq!(layers.get_layers(), vec!["a.x", "a", "b"]);
}

#[test]
fn layers_defined_first_rank_lowest() {
    let mut hierarchy = LayersHierarchy::new();
    hierarchy.define_layer("superui-defaults");
    hierarchy.define_layer("author");
    hierarchy.define_layer("theme");
    assert!(hierarchy.get_layer_priority("superui-defaults") < hierarchy.get_layer_priority("author"));
    assert!(hierarchy.get_layer_priority("author") < hierarchy.get_layer_priority("theme"));
    assert!(hierarchy.get_layer_priority("theme") < hierarchy.get_layer_priority(""));
}

#[test]
fn defining_deep_layer_lists_every_parent_after_it() {
    let mut layers = LayersHierarchy::new();
    layers.define_layer("x");
    layers.define_layer("a.b.c");
    assert_eq!(layers.get_layers(), vec!["x", "a.b.c", "a.b", "a"]);
    layers.define_layer("a.b");
    assert_eq!(layers.get_layers(), vec!["x", "a.b.c", "a.b", "a"]);
}
