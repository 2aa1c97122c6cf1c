use superui_flair::css::inline_style::{trim, InlineStyle};

fn pairs(list: &[(&str, &str)]) -> InlineStyle {
    InlineStyle::from_entries(list.iter().map(|(k, v)| (k.to_string(), v.to_string())).collect())
}

#[test]
fn test_inline_style_new() {
    assert_eq!(InlineStyle::new("width: 30px;"), pairs(&[("width", "30px")]));

    assert_eq!(InlineStyle::new("width: 30px;  height:  50px"), pairs(&[("width", "30px"), ("height", "50px")]));

    assert_eq!(InlineStyle::new("width: 30px;  --some-var: blue"), pairs(&[("width", "30px"), ("--some-var", "blue")]));

    assert_eq!(InlineStyle::new("--some-var: 30px;  --some-var: blue"), pairs(&[("--some-var", "blue")]));
}

#[test]
fn inline_style_get() {
    let style = InlineStyle::new("left: 10px; top: 20px");
    assert_eq!(style.get("left"), Some("10px"));
    assert_eq!(style.get("top"), Some("20px"));
    assert_eq!(style.get("right"), None);
}

#[test]
fn inline_style_set() {
    let mut style = InlineStyle::new("left: 10px");
    style.set("left".to_string(), "20px".to_string());
    style.set("--my-var".to_string(), "50px".to_string());
    assert_eq!(style, InlineStyle::new("left: 20px; --my-var: 50px"));
}

#[test]
fn inline_style_remove() {
    let mut style = InlineStyle::new("margin: 10px; padding: 10px");
    style.remove("margin");
    assert_eq!(style, InlineStyle::new("padding: 10px"));
    style.remove("margin");
    assert_eq!(style, InlineStyle::new("padding: 10px"));
}

#[test]
fn setting_again_moves_a_property_last() {
    let mut style = InlineStyle::new("a: 1; b: 2");
    style.set("a".to_string(), "3".to_string());
    assert_eq!(style, pairs(&[("b", "2"), ("a", "3")]));
    assert_ne!(style, pairs(&[("a", "3"), ("b", "2")]));
    assert_eq!(style.to_css_string(), "b: 2;\na: 3;\n");
}

#[test]
fn pieces_without_colon_or_text() {
    let style = InlineStyle::new(" ; flex ;; color : red : blue ;");
    assert_eq!(style, pairs(&[("flex", ""), ("color", "red : blue")]));
    assert_eq!(InlineStyle::new("   "), InlineStyle::default());
    assert_eq!(InlineStyle::new("").entries(), vec![]);
}

#[test]
fn trim_drops_unicode_white_space() {
    assert_eq!(trim("\u{a0}\t a b \u{3000}\n"), "a b");
    assert_eq!(trim("  "), "");
}
