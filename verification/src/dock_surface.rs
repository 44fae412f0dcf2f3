//! What the Dock shows.
//!
//! The permanent Application Launcher entry comes first, then the launcher
//! model's dock items in their order. A tile reports what the user aimed at;
//! the launcher model decides what may happen next, through the same typed
//! authorization a keyboard or search launch goes through. Geometry and
//! pixels are the native painter's.

use vstd::prelude::*;
use crate::accessibility::{
    leaf_is, node_is, plain_state, value_text, AccessibilityNode, AccessibilityState, SemanticRole,
};
use crate::launcher::DockItem;
use crate::overlay::LayerShellLayer;
use crate::scp_host::{LayerAnchor, LayerKeyboard, LayerMargin, LayerPlacement};
use crate::sort::views;
use crate::text::{char_to_uppercase, decimal, push_decimal, str_eq, uppercase_of};

verus! {

/// Stable SCP namespace of the Dock.
pub const DOCK_NAMESPACE: &'static str = "sol.dock";

/// Stable identity of the Dock's permanent Launcher entry.
pub const LAUNCHER_TILE_ID: &'static str = "dock.launcher";

/// What activating a tile asks the Shell to do.
#[derive(Debug, Clone, PartialEq, Eq)]
pub enum DockTarget {
    /// The permanent Application Launcher entry.
    Launcher,
    /// A cataloged application tile.
    Application(String),
}

/// One Dock tile before layout.
#[derive(Debug, Clone, PartialEq, Eq)]
pub struct DockTile {
    /// Stable identity, used for accessibility and hit testing.
    pub id: String,
    /// What activating this tile targets.
    pub target: DockTarget,
    /// Accessible name.
    pub label: String,
    /// Single-character mark painted in the tile.
    pub mark: String,
    /// Whether the user pinned this application.
    pub pinned: bool,
    /// Whether a trusted session observer reports it running.
    pub running: bool,
}

/// `(id, target app id or none for the Launcher, label, mark, pinned, running)`.
pub open spec fn tile_view(tile: DockTile) -> (Seq<char>, Option<Seq<char>>, Seq<char>, Seq<char>, bool, bool) {
    (
        tile.id@,
        match tile.target {
            DockTarget::Launcher => None,
            DockTarget::Application(app_id) => Some(app_id@),
        },
        tile.label@,
        tile.mark@,
        tile.pinned,
        tile.running,
    )
}

/// The mark painted in a tile: the upper-case form of the name's first
/// character, or `?` for an empty name.
pub open spec fn initial_of(name: Seq<char>) -> Seq<char> {
    if name.len() == 0 {
        "?"@
    } else {
        uppercase_of(name[0])
    }
}

/// The mark painted in a tile.
pub fn initial(name: &str) -> (mark: String)
    ensures
        mark@ == initial_of(name@),
{
    if name.unicode_len() == 0 {
        String::from_str("?")
    } else {
        char_to_uppercase(name.get_char(0))
    }
}

/// The accessible state of a tile.
pub open spec fn tile_state_text(pinned: bool, running: bool) -> Seq<char> {
    if pinned && running {
        "Pinned, running"@
    } else if pinned {
        "Pinned"@
    } else if running {
        "Running"@
    } else {
        "Available"@
    }
}

/// The accessible state of a tile.
pub fn tile_state(pinned: bool, running: bool) -> (state: &'static str)
    ensures
        state@ == tile_state_text(pinned, running),
{
    if pinned && running {
        "Pinned, running"
    } else if pinned {
        "Pinned"
    } else if running {
        "Running"
    } else {
        "Available"
    }
}

/// The tile of one dock item.
pub open spec fn item_tile_view(item: ((Seq<char>, Seq<char>, Seq<Seq<char>>), bool, bool)) -> (
    Seq<char>,
    Option<Seq<char>>,
    Seq<char>,
    Seq<char>,
    bool,
    bool,
) {
    (
        "dock."@ + item.0.0,
        Some(item.0.0),
        item.0.1,
        initial_of(item.0.1),
        item.1,
        item.2,
    )
}

/// The Dock's tiles in presentation order: the Launcher entry, then one
/// tile per dock item.
pub fn dock_tiles(items: &Vec<DockItem>) -> (tiles: Vec<DockTile>)
    ensures
        tiles@.len() == items@.len() + 1,
        tile_view(tiles@[0]) == (
            "dock.launcher"@,
            None::<Seq<char>>,
            "Application Launcher"@,
            "::"@,
            true,
            false,
        ),
        forall|k: int|
            0 <= k < items@.len() ==> tile_view(#[trigger] tiles@[k + 1]) == item_tile_view(
                items@[k]@,
            ),
{
    let mut tiles: Vec<DockTile> = Vec::new();
    tiles.push(
        DockTile {
            id: String::from_str(LAUNCHER_TILE_ID),
            target: DockTarget::Launcher,
            label: String::from_str("Application Launcher"),
            mark: String::from_str("::"),
            pinned: true,
            running: false,
        },
    );
    let mut i: usize = 0;
    while i < items.len()
        invariant
            i <= items@.len(),
            tiles@.len() == i + 1,
            tile_view(tiles@[0]) == (
                "dock.launcher"@,
                None::<Seq<char>>,
                "Application Launcher"@,
                "::"@,
                true,
                false,
            ),
            forall|k: int|
                0 <= k < i ==> tile_view(#[trigger] tiles@[k + 1]) == item_tile_view(items@[k]@),
        decreases items@.len() - i,
    {
        let item = &items[i];
        let mut id = String::from_str("dock.");
        id.append(item.entry.identity.app_id.as_str());
        let tile = DockTile {
            id,
            target: DockTarget::Application(item.entry.identity.app_id.clone()),
            label: item.entry.identity.display_name.clone(),
            mark: initial(item.entry.identity.display_name.as_str()),
            pinned: item.pinned,
            running: item.running,
        };
        let ghost before = tiles@;
        tiles.push(tile);
        proof {
            assert(tiles@[i + 1] == tile);
            assert forall|k: int| 0 <= k < i + 1 implies tile_view(#[trigger] tiles@[k + 1])
                == item_tile_view(items@[k]@) by {
                if k < i {
                    assert(tiles@[k + 1] == before[k + 1]);
                }
            }
        }
        i = i + 1;
    }
    tiles
}

/// Whether a tile targets the focused application.
pub open spec fn tile_focused(tile: DockTile, focused: Option<String>) -> bool {
    tile_view(tile).1 is Some && tile_view(tile).1 == value_text(focused)
}

/// The node of one tile: a button named by its label, valued by its state,
/// focused when it targets the focused application, selected while running.
pub open spec fn tile_node_is(node: AccessibilityNode, tile: DockTile, focused: Option<String>) -> bool {
    leaf_is(
        node,
        tile.id@,
        SemanticRole::Button,
        tile.label@,
        Some(tile_state_text(tile.pinned, tile.running)),
        AccessibilityState {
            focused: tile_focused(tile, focused),
            selected: tile.running,
            disabled: false,
            editable: false,
        },
    )
}

/// The Dock's semantic tree: the Dock and one button per tile, in order.
pub fn accessibility_tree(tiles: &Vec<DockTile>, focused: &Option<String>) -> (tree: AccessibilityNode)
    ensures
        node_is(
            tree,
            "dock-surface"@,
            SemanticRole::Group,
            "SOL Dock"@,
            Some(decimal(tiles@.len()) + " entries"@),
            plain_state(),
        ),
        tree.children@.len() == tiles@.len(),
        forall|i: int|
            0 <= i < tiles@.len() ==> tile_node_is(#[trigger] tree.children@[i], tiles@[i], *focused),
{
    let mut children: Vec<AccessibilityNode> = Vec::new();
    let mut i: usize = 0;
    while i < tiles.len()
        invariant
            i <= tiles@.len(),
            children@.len() == i,
            forall|a: int| 0 <= a < i ==> tile_node_is(#[trigger] children@[a], tiles@[a], *focused),
        decreases tiles@.len() - i,
    {
        let tile = &tiles[i];
        let is_focused = match (&tile.target, focused) {
            (DockTarget::Application(app_id), Some(f)) => str_eq(app_id.as_str(), f.as_str()),
            _ => false,
        };
        children.push(
            AccessibilityNode {
                id: tile.id.clone(),
                role: SemanticRole::Button,
                label: tile.label.clone(),
                value: Some(String::from_str(tile_state(tile.pinned, tile.running))),
                state: AccessibilityState {
                    focused: is_focused,
                    selected: tile.running,
                    disabled: false,
                    editable: false,
                },
                children: Vec::new(),
            },
        );
        i = i + 1;
    }
    let mut value = String::new();
    push_decimal(&mut value, tiles.len() as u64);
    value.append(" entries");
    AccessibilityNode {
        id: String::from_str("dock-surface"),
        role: SemanticRole::Group,
        label: String::from_str("SOL Dock"),
        value: Some(value),
        state: AccessibilityState::default(),
        children,
    }
}

/// Where the compositor places the Dock: on the top layer, pinned to the
/// bottom edge and centred by the compositor, `bottom_margin` physical pixels
/// above the edge, reserving no work area so windows run under it, and never
/// taking the keyboard.
pub fn dock_placement(physical: (i32, i32), bottom_margin: i32) -> (placement: LayerPlacement)
    ensures
        placement.namespace@ == DOCK_NAMESPACE@,
        placement.layer == LayerShellLayer::Top,
        placement.anchor == (LayerAnchor { top: false, bottom: true, left: false, right: false }),
        placement.margin == (LayerMargin { top: 0, right: 0, bottom: bottom_margin, left: 0 }),
        placement.size == physical,
        placement.exclusive_zone == 0,
        placement.keyboard == LayerKeyboard::NoFocus,
{
    LayerPlacement {
        namespace: String::from_str(DOCK_NAMESPACE),
        layer: LayerShellLayer::Top,
        anchor: LayerAnchor::bottom_center(),
        margin: LayerMargin::bottom(bottom_margin),
        size: physical,
        exclusive_zone: 0,
        keyboard: LayerKeyboard::NoFocus,
    }
}

} // verus!
