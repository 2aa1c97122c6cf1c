//! Interaction state of a node (`:hover`, `:active`, ...), and color schemes.

use vstd::prelude::*;

verus! {

/// The pseudo classes a node is in.
#[derive(Debug, Clone, Copy, PartialEq, Eq, Structural, Hash, Default)]
pub struct NodePseudoState {
    /// Pressed (`:active`).
    pub pressed: bool,
    /// Hovered (`:hover`).
    pub hovered: bool,
    /// Focused (`:focus`).
    pub focused: bool,
    /// Focused with a visible focus indicator (`:focus-visible`).
    pub focused_and_visible: bool,
    /// Disabled (`:disabled`).
    pub disabled: bool,
    /// Checked (`:checked`).
    pub checked: bool,
}

/// A pseudo class a node state can match.
#[derive(Debug, Clone, Copy, PartialEq, Eq, Structural, Hash)]
pub enum NodePseudoStateSelector {
    /// `:active`
    Pressed,
    /// `:hover`
    Hovered,
    /// `:focus`
    Focused,
    /// `:focus-visible`
    FocusedAndVisible,
    /// `:disabled`
    Disabled,
    /// `:checked`
    Checked,
}

/// Whether `state` is in the pseudo class `selector`.
pub open spec fn state_matches(state: NodePseudoState, selector: NodePseudoStateSelector) -> bool {
    match selector {
        NodePseudoStateSelector::Pressed => state.pressed,
        NodePseudoStateSelector::Hovered => state.hovered,
        NodePseudoStateSelector::Focused => state.focused,
        NodePseudoStateSelector::FocusedAndVisible => state.focused_and_visible,
        NodePseudoStateSelector::Disabled => state.disabled,
        NodePseudoStateSelector::Checked => state.checked,
    }
}

impl NodePseudoState {
    /// The state in no pseudo class.
    pub fn empty() -> (r: NodePseudoState)
        ensures
            forall|s: NodePseudoStateSelector| !state_matches(r, s),
    {
        NodePseudoState {
            pressed: false,
            hovered: false,
            focused: false,
            focused_and_visible: false,
            disabled: false,
            checked: false,
        }
    }

    /// Whether the node is pressed.
    pub fn is_pressed(&self) -> (r: bool)
        ensures
            r == self.pressed,
    {
        self.pressed
    }

    /// Whether the node is in the pseudo class `selector`.
    pub fn matches(&self, selector: NodePseudoStateSelector) -> (r: bool)
        ensures
            r == state_matches(*self, selector),
    {
        match selector {
            NodePseudoStateSelector::Pressed => self.pressed,
            NodePseudoStateSelector::Hovered => self.hovered,
            NodePseudoStateSelector::Focused => self.focused,
            NodePseudoStateSelector::FocusedAndVisible => self.focused_and_visible,
            NodePseudoStateSelector::Disabled => self.disabled,
            NodePseudoStateSelector::Checked => self.checked,
        }
    }
}

/// The CSS text of a pseudo class.
pub open spec fn pseudo_class_text(s: NodePseudoStateSelector) -> Seq<char> {
    match s {
        NodePseudoStateSelector::Pressed => ":active"@,
        NodePseudoStateSelector::Hovered => ":hover"@,
        NodePseudoStateSelector::Focused => ":focus"@,
        NodePseudoStateSelector::FocusedAndVisible => ":focus-visible"@,
        NodePseudoStateSelector::Disabled => ":disabled"@,
        NodePseudoStateSelector::Checked => ":checked"@,
    }
}

impl NodePseudoStateSelector {
    /// The CSS text of the pseudo class.
    pub fn to_css_string(&self) -> (r: &'static str)
        ensures
            r@ == pseudo_class_text(*self),
    {
        match self {
            NodePseudoStateSelector::Pressed => ":active",
            NodePseudoStateSelector::Hovered => ":hover",
            NodePseudoStateSelector::Focused => ":focus",
            NodePseudoStateSelector::FocusedAndVisible => ":focus-visible",
            NodePseudoStateSelector::Disabled => ":disabled",
            NodePseudoStateSelector::Checked => ":checked",
        }
    }
}

/// A light or dark theme.
#[derive(Debug, Clone, Copy, PartialEq, Eq, Structural, Default)]
pub enum ColorScheme {
    /// Light.
    #[default]
    Light,
    /// Dark.
    Dark,
}

} // verus!
