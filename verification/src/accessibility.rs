//! Renderer-independent semantic trees handed to a platform accessibility
//! bridge: each surface and model describes itself as a tree of nodes with a
//! stable identity, a role, a name, an optional value, and a state.

use vstd::prelude::*;

verus! {

/// What a node is to assistive technology.
#[derive(Debug, Clone, Copy, PartialEq, Eq, Structural)]
pub enum SemanticRole {
    /// A container of other nodes, or a label that cannot be activated.
    Group,
    /// Something the user can activate.
    Button,
    /// Editable text.
    TextField,
}

/// The state flags a node reports.
#[derive(Debug, Clone, Copy, PartialEq, Eq, Structural)]
pub struct AccessibilityState {
    pub focused: bool,
    pub selected: bool,
    pub disabled: bool,
    pub editable: bool,
}

/// The state with no flag raised.
pub open spec fn plain_state() -> AccessibilityState {
    AccessibilityState { focused: false, selected: false, disabled: false, editable: false }
}

impl Default for AccessibilityState {
    fn default() -> (state: Self)
        ensures
            state == plain_state(),
    {
        AccessibilityState { focused: false, selected: false, disabled: false, editable: false }
    }
}

/// One node of a semantic tree.
#[derive(Debug)]
pub struct AccessibilityNode {
    /// Stable identity of the node within its tree.
    pub id: String,
    pub role: SemanticRole,
    /// The accessible name.
    pub label: String,
    /// The current value, where the node has one.
    pub value: Option<String>,
    pub state: AccessibilityState,
    /// Nested nodes, in reading order.
    pub children: Vec<AccessibilityNode>,
}

/// The text of an optional value.
pub open spec fn value_text(value: Option<String>) -> Option<Seq<char>> {
    match value {
        Some(text) => Some(text@),
        None => None,
    }
}

/// Whether `node` carries exactly these fields, children aside.
pub open spec fn node_is(
    node: AccessibilityNode,
    id: Seq<char>,
    role: SemanticRole,
    label: Seq<char>,
    value: Option<Seq<char>>,
    state: AccessibilityState,
) -> bool {
    &&& node.id@ == id
    &&& node.role == role
    &&& node.label@ == label
    &&& value_text(node.value) == value
    &&& node.state == state
}

/// Whether `node` is `node_is` these fields and has no children.
pub open spec fn leaf_is(
    node: AccessibilityNode,
    id: Seq<char>,
    role: SemanticRole,
    label: Seq<char>,
    value: Option<Seq<char>>,
    state: AccessibilityState,
) -> bool {
    node_is(node, id, role, label, value, state) && node.children@.len() == 0
}

/// Copy an optional text value.
pub fn copy_value(value: &Option<String>) -> (copy: Option<String>)
    ensures
        value_text(copy) == value_text(*value),
{
    match value {
        Some(text) => Some(text.clone()),
        None => None,
    }
}

} // verus!
