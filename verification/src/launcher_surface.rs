//! The Launcher's interaction state.
//!
//! The Launcher shows the whole catalog, or the ranked matches of a typed
//! query, as a grid of at most four rows of four tiles. This module owns what
//! the keyboard does to it; it reports what the Shell should do next and
//! never performs a launch itself. Layout and pixels are the native painter's.

use vstd::prelude::*;
use crate::accessibility::{leaf_is, node_is, plain_state, AccessibilityNode, AccessibilityState, SemanticRole};
use crate::dock_surface::{initial, initial_of};
use crate::keys::Key;
use crate::overlay::LayerShellLayer;
use crate::scp_host::{LayerAnchor, LayerKeyboard, LayerMargin, LayerPlacement};
use crate::launcher::{
    entry_order, normalized, ranked_matches, result_count, search_matches, AppCatalogEntry,
    EntryView, LocalSearchIndex, ResultView, SearchMatch,
};
use crate::sort::{arrangement, views};
use crate::text::{decimal, push_char, push_decimal, trimmed};

verus! {

broadcast use vstd::seq_lib::group_to_multiset_ensures;

/// Stable SCP namespace of the Launcher.
pub const LAUNCHER_NAMESPACE: &'static str = "sol.launcher";

/// Tiles per row.
pub const COLUMNS: usize = 4;

/// Rows shown at most; the grid never scrolls.
pub const MAX_ROWS: usize = 4;

/// Placeholder shown in an empty search field.
pub const SEARCH_PLACEHOLDER: &'static str = "SEARCH APPS";

/// What the Launcher asks the Shell to do next.
#[derive(Debug, Clone, PartialEq, Eq)]
pub enum LauncherOutcome {
    /// The key did not apply.
    Ignored,
    /// The visible frame changed and must be repainted.
    Changed,
    /// The user asked to close the Launcher.
    Dismissed,
    /// The user activated an application. The Shell must route this through
    /// the launcher model's typed authorization before anything starts.
    Launch(String),
}

/// The selection after a cyclic step of `delta` among `shown` tiles.
pub open spec fn stepped_selection(selected: int, delta: int, shown: int) -> int {
    ((selected % shown) + shown + delta) % shown
}

/// `s` without its last character.
fn without_last(s: &str) -> (shorter: String)
    requires
        s@.len() > 0,
    ensures
        shorter@ == s@.drop_last(),
{
    let len = s.unicode_len();
    let mut shorter = String::new();
    let mut i: usize = 0;
    while i + 1 < len
        invariant
            len == s@.len(),
            len > 0,
            i + 1 <= len,
            shorter@ == s@.take(i as int),
        decreases len - i,
    {
        push_char(&mut shorter, s.get_char(i));
        proof {
            assert(s@.take(i + 1) =~= s@.take(i as int).push(s@[i as int]));
        }
        i = i + 1;
    }
    proof {
        assert(s@.take(i as int) =~= s@.drop_last());
    }
    shorter
}

/// Retained Launcher interaction state over an application catalog.
#[derive(Debug)]
pub struct LauncherSurface {
    index: LocalSearchIndex,
    query: String,
    selected: usize,
    visible: bool,
}

impl LauncherSurface {
    /// The catalog the Launcher searches.
    pub closed spec fn index_spec(&self) -> LocalSearchIndex {
        self.index
    }

    /// The typed query.
    pub closed spec fn query_spec(&self) -> Seq<char> {
        self.query@
    }

    /// The selected tile's position.
    pub closed spec fn selected_spec(&self) -> nat {
        self.selected as nat
    }

    /// Whether the Launcher is presented.
    pub closed spec fn visible_spec(&self) -> bool {
        self.visible
    }

    /// The entries presented, with why each matched: the whole catalog in app
    /// id order when the query is blank, else the ranked matches that fit one
    /// full grid.
    pub open spec fn visible_views(&self) -> Seq<(EntryView, Option<SearchMatch>)> {
        let entries = self.index_spec().entries_spec();
        if trimmed(self.query_spec()).len() == 0 {
            arrangement(views(entries).to_multiset(), entry_order()).map_values(
                |v: EntryView| (v, None::<SearchMatch>),
            )
        } else {
            let q = normalized(self.query_spec());
            ranked_matches(entries, q).take(
                result_count((COLUMNS * MAX_ROWS) as usize, search_matches(entries, q).len() as int),
            ).map_values(|r: ResultView| (r.0, Some(r.1)))
        }
    }

    /// How many entries are presented: the whole catalog when the query is
    /// blank, else the ranked matches that fit one full grid.
    pub open spec fn visible_count(&self) -> int {
        if trimmed(self.query_spec()).len() == 0 {
            self.index_spec().entries_spec().len() as int
        } else {
            shown_count(
                search_matches(self.index_spec().entries_spec(), normalized(self.query_spec())).len() as int,
            )
        }
    }

    /// Create the Launcher over an application catalog, closed.
    pub fn new(index: LocalSearchIndex) -> (launcher: Self)
        ensures
            launcher.index_spec() == index,
            launcher.query_spec().len() == 0,
            launcher.selected_spec() == 0,
            !launcher.visible_spec(),
    {
        LauncherSurface { index, query: String::new(), selected: 0, visible: false }
    }

    /// Whether the Launcher is currently presented.
    pub fn is_visible(&self) -> (visible: bool)
        ensures
            visible == self.visible_spec(),
    {
        self.visible
    }

    /// The active query.
    pub fn query(&self) -> (query: &str)
        ensures
            query@ == self.query_spec(),
    {
        self.query.as_str()
    }

    /// The selected tile's position.
    pub fn selected(&self) -> (selected: usize)
        ensures
            selected == self.selected_spec(),
    {
        self.selected
    }

    /// Open the Launcher with a cleared query and the first entry selected.
    /// Opening always resets: a Launcher that reopens holding the last search
    /// shows a filtered library the user did not ask for.
    pub fn open(&mut self)
        ensures
            final(self).index_spec() == old(self).index_spec(),
            final(self).query_spec().len() == 0,
            final(self).selected_spec() == 0,
            final(self).visible_spec(),
    {
        self.query = String::new();
        self.selected = 0;
        self.visible = true;
    }

    /// Close the Launcher.
    pub fn close(&mut self)
        ensures
            final(self).index_spec() == old(self).index_spec(),
            final(self).query_spec() == old(self).query_spec(),
            final(self).selected_spec() == old(self).selected_spec(),
            !final(self).visible_spec(),
    {
        self.visible = false;
    }

    /// Open a closed Launcher or close an open one; returns whether it is now
    /// open.
    pub fn toggle(&mut self) -> (now_open: bool)
        ensures
            now_open == !old(self).visible_spec(),
            final(self).visible_spec() == now_open,
            final(self).index_spec() == old(self).index_spec(),
            now_open ==> final(self).query_spec().len() == 0 && final(self).selected_spec() == 0,
            !now_open ==> final(self).query_spec() == old(self).query_spec()
                && final(self).selected_spec() == old(self).selected_spec(),
    {
        if self.visible {
            self.close();
            false
        } else {
            self.open();
            true
        }
    }

    /// Entries to present: the ranked matches of a query (at most a full
    /// grid), or the whole catalog in app id order when the query is blank.
    pub fn visible_entries(&self) -> (entries: Vec<(AppCatalogEntry, Option<SearchMatch>)>)
        ensures
            entries@.map_values(|e: (AppCatalogEntry, Option<SearchMatch>)| (e.0@, e.1))
                == self.visible_views(),
            entries@.len() == self.visible_count(),
    {
        if crate::text::trim_lowercase(self.query.as_str()).unicode_len() == 0 {
            proof {
                assert(crate::text::ascii_lower_text(trimmed(self.query@)).len() == trimmed(
                    self.query@,
                ).len());
            }
            let all = self.index.entries();
            let mut shown: Vec<(AppCatalogEntry, Option<SearchMatch>)> = Vec::new();
            let mut i: usize = 0;
            while i < all.len()
                invariant
                    i <= all@.len(),
                    shown@.len() == i,
                    forall|k: int| 0 <= k < i ==> #[trigger] shown@[k].0@ == all@[k]@,
                    forall|k: int| 0 <= k < i ==> #[trigger] shown@[k].1 is None,
                decreases all@.len() - i,
            {
                shown.push((all[i].clone(), None));
                i = i + 1;
            }
            proof {
                let order = views(all@);
                assert(shown@.map_values(|e: (AppCatalogEntry, Option<SearchMatch>)| (e.0@, e.1))
                    =~= order.map_values(|v: EntryView| (v, None::<SearchMatch>))) by {
                    assert forall|k: int| 0 <= k < shown@.len() implies #[trigger] shown@[k].0@ == order[k]
                        && shown@[k].1 is None by {}
                }
            }
            return shown;
        }
        proof {
            assert(crate::text::ascii_lower_text(trimmed(self.query@)).len() == trimmed(
                self.query@,
            ).len());
        }
        let results = self.index.query(self.query.as_str(), COLUMNS * MAX_ROWS);
        let mut shown: Vec<(AppCatalogEntry, Option<SearchMatch>)> = Vec::new();
        let mut i: usize = 0;
        while i < results.len()
            invariant
                i <= results@.len(),
                shown@.len() == i,
                forall|k: int| 0 <= k < i ==> #[trigger] shown@[k].0@ == results@[k].entry@,
                forall|k: int| 0 <= k < i ==> #[trigger] shown@[k].1 == Some(results@[k].matched_on),
            decreases results@.len() - i,
        {
            let entry = results[i].entry.clone();
            let matched_on = results[i].matched_on;
            let ghost before = shown@;
            shown.push((entry, Some(matched_on)));
            proof {
                assert(shown@ == before.push((entry, Some(matched_on))));
                assert(entry@ == results@[i as int].entry@);
            }
            i = i + 1;
        }
        proof {
            let ranked = views(results@);
            assert(shown@.map_values(|e: (AppCatalogEntry, Option<SearchMatch>)| (e.0@, e.1))
                =~= ranked.map_values(|r: ResultView| (r.0, Some(r.1)))) by {
                assert forall|k: int| 0 <= k < shown@.len() implies #[trigger] shown@[k].0@ == ranked[k].0
                    && shown@[k].1 == Some(ranked[k].1) by {}
            }
        }
        shown
    }

    /// Route one key. Returns what the Shell should do; it never performs it,
    /// and repainting is the caller's decision so keys can be coalesced.
    pub fn handle_key(&mut self, key: Key) -> (outcome: LauncherOutcome)
        ensures
            final(self).index_spec() == old(self).index_spec(),
            !old(self).visible_spec() ==> outcome == LauncherOutcome::Ignored && *final(self)
                == *old(self),
            old(self).visible_spec() ==> match key {
                Key::Escape => outcome == LauncherOutcome::Dismissed && !final(self).visible_spec()
                    && final(self).query_spec() == old(self).query_spec(),
                Key::Character(c) => outcome == LauncherOutcome::Changed && final(self).query_spec()
                    == old(self).query_spec().push(c) && final(self).selected_spec() == 0
                    && final(self).visible_spec(),
                Key::Backspace => if old(self).query_spec().len() == 0 {
                    outcome == LauncherOutcome::Ignored && *final(self) == *old(self)
                } else {
                    outcome == LauncherOutcome::Changed && final(self).query_spec() == old(
                        self,
                    ).query_spec().drop_last() && final(self).selected_spec() == 0
                        && final(self).visible_spec()
                },
                Key::CommandPalette => outcome == LauncherOutcome::Ignored && *final(self) == *old(self),
                Key::Tab | Key::ArrowRight | Key::ShiftTab | Key::ArrowLeft => if old(
                    self,
                ).visible_count() == 0 {
                    outcome == LauncherOutcome::Ignored && *final(self) == *old(self)
                } else {
                    outcome == LauncherOutcome::Changed && final(self).query_spec() == old(
                        self,
                    ).query_spec() && final(self).visible_spec() && final(self).selected_spec()
                        == stepped_selection(
                        old(self).selected_spec() as int,
                        if key == Key::Tab || key == Key::ArrowRight {
                            1
                        } else {
                            -1
                        },
                        shown_count(old(self).visible_count()),
                    )
                },
                _ => *final(self) == *old(self) && if old(self).selected_spec() < old(
                    self,
                ).visible_count() {
                    outcome matches LauncherOutcome::Launch(app_id) && app_id@ == old(
                        self,
                    ).visible_views()[old(self).selected_spec() as int].0.0
                } else {
                    outcome == LauncherOutcome::Ignored
                },
            },
    {
        if !self.visible {
            return LauncherOutcome::Ignored;
        }
        match key {
            Key::Escape => {
                self.visible = false;
                LauncherOutcome::Dismissed
            },
            Key::Character(c) => {
                let mut query = String::new();
                query.append(self.query.as_str());
                push_char(&mut query, c);
                self.query = query;
                self.selected = 0;
                LauncherOutcome::Changed
            },
            Key::Backspace => {
                if self.query.unicode_len() == 0 {
                    return LauncherOutcome::Ignored;
                }
                self.query = without_last(self.query.as_str());
                self.selected = 0;
                LauncherOutcome::Changed
            },
            Key::Tab | Key::ArrowRight => {
                let count = self.visible_entries().len();
                self.move_selection(true, count)
            },
            Key::ShiftTab | Key::ArrowLeft => {
                let count = self.visible_entries().len();
                self.move_selection(false, count)
            },
            Key::Enter | Key::Space => {
                let entries = self.visible_entries();
                if self.selected < entries.len() {
                    proof {
                        assert(entries@.map_values(
                            |e: (AppCatalogEntry, Option<SearchMatch>)| (e.0@, e.1),
                        )[self.selected as int].0 == entries@[self.selected as int].0@);
                    }
                    LauncherOutcome::Launch(entries[self.selected].0.identity.app_id.clone())
                } else {
                    LauncherOutcome::Ignored
                }
            },
            Key::CommandPalette => LauncherOutcome::Ignored,
        }
    }

    /// Step the selection cyclically among the shown tiles; nothing to select
    /// ignores the key.
    fn move_selection(&mut self, forward: bool, visible: usize) -> (outcome: LauncherOutcome)
        ensures
            final(self).index_spec() == old(self).index_spec(),
            final(self).query_spec() == old(self).query_spec(),
            final(self).visible_spec() == old(self).visible_spec(),
            visible == 0 ==> outcome == LauncherOutcome::Ignored && *final(self) == *old(self),
            visible > 0 ==> outcome == LauncherOutcome::Changed && final(self).selected_spec()
                == stepped_selection(
                old(self).selected_spec() as int,
                if forward {
                    1
                } else {
                    -1
                },
                if visible < COLUMNS * MAX_ROWS {
                    visible as int
                } else {
                    (COLUMNS * MAX_ROWS) as int
                },
            ),
    {
        if visible == 0 {
            return LauncherOutcome::Ignored;
        }
        let shown = if visible < COLUMNS * MAX_ROWS {
            visible
        } else {
            COLUMNS * MAX_ROWS
        };
        let base = self.selected % shown + shown;
        self.selected = if forward {
            (base + 1) % shown
        } else {
            (base - 1) % shown
        };
        LauncherOutcome::Changed
    }
}

/// One application tile of the Launcher grid, before layout.
#[derive(Debug, Clone, PartialEq, Eq)]
pub struct LauncherTile {
    /// Stable identity, used for accessibility and hit testing.
    pub id: String,
    /// Application this tile launches.
    pub app_id: String,
    /// Display name.
    pub label: String,
    /// Single-character mark painted in the tile.
    pub mark: String,
    /// Why this entry matched, when a query is active.
    pub matched_on: Option<SearchMatch>,
    /// Whether the keyboard selection is on this tile.
    pub selected: bool,
}

/// The tiles the grid shows and how many matching entries it could not.
#[derive(Debug, Clone, PartialEq, Eq)]
pub struct LauncherGrid {
    /// Visible tiles in presentation order.
    pub tiles: Vec<LauncherTile>,
    /// Matching entries the grid could not show.
    pub overflow: usize,
}

/// How many of `count` entries a full grid shows.
pub open spec fn shown_count(count: int) -> int {
    if count < (COLUMNS * MAX_ROWS) as int {
        count
    } else {
        (COLUMNS * MAX_ROWS) as int
    }
}

/// Whether `tile` presents `entry` at grid position `index`, with the
/// keyboard selection at `selected`.
pub open spec fn presents(
    tile: LauncherTile,
    entry: (AppCatalogEntry, Option<SearchMatch>),
    index: int,
    selected: int,
) -> bool {
    &&& tile.id@ == "launcher."@ + entry.0.identity.app_id@
    &&& tile.app_id@ == entry.0.identity.app_id@
    &&& tile.label@ == entry.0.identity.display_name@
    &&& tile.mark@ == initial_of(entry.0.identity.display_name@)
    &&& tile.matched_on == entry.1
    &&& tile.selected == (index == selected)
}

/// Lay the presented entries (see `LauncherSurface::visible_entries`) into
/// the grid: the first full grid of them as tiles, the rest counted as
/// overflow rather than silently dropped.
pub fn launcher_grid(entries: &Vec<(AppCatalogEntry, Option<SearchMatch>)>, selected: usize) -> (grid:
    LauncherGrid)
    ensures
        grid.tiles@.len() == shown_count(entries@.len() as int),
        grid.overflow == entries@.len() - grid.tiles@.len(),
        forall|i: int|
            0 <= i < grid.tiles@.len() ==> presents(
                #[trigger] grid.tiles@[i],
                entries@[i],
                i,
                selected as int,
            ),
{
    let shown = if entries.len() < COLUMNS * MAX_ROWS {
        entries.len()
    } else {
        COLUMNS * MAX_ROWS
    };
    let mut tiles: Vec<LauncherTile> = Vec::new();
    let mut i: usize = 0;
    while i < shown
        invariant
            i <= shown,
            shown == shown_count(entries@.len() as int),
            tiles@.len() == i,
            forall|k: int|
                0 <= k < i ==> presents(#[trigger] tiles@[k], entries@[k], k, selected as int),
        decreases shown - i,
    {
        let entry = &entries[i];
        let mut id = String::from_str("launcher.");
        id.append(entry.0.identity.app_id.as_str());
        let tile = LauncherTile {
            id,
            app_id: entry.0.identity.app_id.clone(),
            label: entry.0.identity.display_name.clone(),
            mark: initial(entry.0.identity.display_name.as_str()),
            matched_on: entry.1,
            selected: i == selected,
        };
        tiles.push(tile);
        i = i + 1;
    }
    LauncherGrid { tiles, overflow: entries.len() - shown }
}

/// A step of the selection to the right and one back to the left (or the
/// other way round) returns it to the tile it started on.
pub proof fn lemma_selection_steps_undo(selected: int, shown: int)
    requires
        0 <= selected < shown,
    ensures
        stepped_selection(stepped_selection(selected, 1, shown), -1, shown) == selected,
        stepped_selection(stepped_selection(selected, -1, shown), 1, shown) == selected,
        0 <= stepped_selection(selected, 1, shown) < shown,
        0 <= stepped_selection(selected, -1, shown) < shown,
{
    let forward = stepped_selection(selected, 1, shown);
    let back = stepped_selection(selected, -1, shown);
    lemma_step_value(selected, 1, shown);
    lemma_step_value(selected, -1, shown);
    lemma_step_value(forward, -1, shown);
    lemma_step_value(back, 1, shown);
}

/// A step from a valid selection lands one tile over, wrapping at the ends.
proof fn lemma_step_value(selected: int, delta: int, shown: int)
    requires
        0 <= selected < shown,
        delta == 1 || delta == -1,
    ensures
        stepped_selection(selected, delta, shown) == if selected + delta < 0 {
            shown - 1
        } else if selected + delta >= shown {
            0
        } else {
            selected + delta
        },
{
    vstd::arithmetic::div_mod::lemma_small_mod(selected as nat, shown as nat);
    let total = selected + shown + delta;
    if selected + delta < 0 {
        vstd::arithmetic::div_mod::lemma_small_mod((shown - 1) as nat, shown as nat);
    } else if selected + delta >= shown {
        vstd::arithmetic::div_mod::lemma_mod_multiples_basic(2, shown);
        assert(total == 2 * shown);
        vstd::arithmetic::div_mod::lemma_mod_self_0(shown);
        vstd::arithmetic::div_mod::lemma_mod_add_multiples_vanish(shown, shown);
    } else {
        vstd::arithmetic::div_mod::lemma_mod_add_multiples_vanish(selected + delta, shown);
        vstd::arithmetic::div_mod::lemma_small_mod((selected + delta) as nat, shown as nat);
    }
}

/// The node of one tile: a button named by the application, valued by its
/// id, focused and selected where the keyboard selection is.
pub open spec fn tile_node_is(node: AccessibilityNode, tile: LauncherTile) -> bool {
    leaf_is(
        node,
        tile.id@,
        SemanticRole::Button,
        tile.label@,
        Some(tile.app_id@),
        AccessibilityState { focused: tile.selected, selected: tile.selected, disabled: false, editable: false },
    )
}

/// The Launcher's semantic tree: the search field, which always holds the
/// keyboard, then one button per tile; the root reports how many
/// applications matched.
pub fn accessibility_tree(tiles: &Vec<LauncherTile>, query: &str, matches: usize) -> (tree: AccessibilityNode)
    ensures
        node_is(
            tree,
            "launcher-surface"@,
            SemanticRole::Group,
            "Application Launcher"@,
            Some(decimal(matches as nat) + " applications"@),
            plain_state(),
        ),
        tree.children@.len() == tiles@.len() + 1,
        leaf_is(
            tree.children@[0],
            "launcher.search"@,
            SemanticRole::TextField,
            "Search applications"@,
            Some(query@),
            AccessibilityState { focused: true, selected: false, disabled: false, editable: true },
        ),
        forall|i: int| 0 <= i < tiles@.len() ==> tile_node_is(#[trigger] tree.children@[i + 1], tiles@[i]),
{
    let mut children: Vec<AccessibilityNode> = Vec::new();
    children.push(
        AccessibilityNode {
            id: String::from_str("launcher.search"),
            role: SemanticRole::TextField,
            label: String::from_str("Search applications"),
            value: Some(String::from_str(query)),
            state: AccessibilityState { focused: true, selected: false, disabled: false, editable: true },
            children: Vec::new(),
        },
    );
    let mut i: usize = 0;
    while i < tiles.len()
        invariant
            i <= tiles@.len(),
            children@.len() == i + 1,
            leaf_is(
                children@[0],
                "launcher.search"@,
                SemanticRole::TextField,
                "Search applications"@,
                Some(query@),
                AccessibilityState { focused: true, selected: false, disabled: false, editable: true },
            ),
            forall|a: int| 0 <= a < i ==> tile_node_is(#[trigger] children@[a + 1], tiles@[a]),
        decreases tiles@.len() - i,
    {
        let tile = &tiles[i];
        let ghost before = children@;
        children.push(
            AccessibilityNode {
                id: tile.id.clone(),
                role: SemanticRole::Button,
                label: tile.label.clone(),
                value: Some(tile.app_id.clone()),
                state: AccessibilityState {
                    focused: tile.selected,
                    selected: tile.selected,
                    disabled: false,
                    editable: false,
                },
                children: Vec::new(),
            },
        );
        proof {
            assert forall|a: int| 0 <= a < i + 1 implies tile_node_is(#[trigger] children@[a + 1], tiles@[a]) by {
                if a < i {
                    assert(children@[a + 1] == before[a + 1]);
                }
            }
        }
        i = i + 1;
    }
    let mut value = String::new();
    push_decimal(&mut value, matches as u64);
    value.append(" applications");
    AccessibilityNode {
        id: String::from_str("launcher-surface"),
        role: SemanticRole::Group,
        label: String::from_str("Application Launcher"),
        value: Some(value),
        state: AccessibilityState::default(),
        children,
    }
}

/// Where the compositor places the Launcher: on the overlay layer, above the
/// panels and the Dock it grows out of; pinned to no edge, so the compositor
/// centres it; reserving nothing; and owning the keyboard while it is up, so
/// typing goes to its search field.
pub fn launcher_placement(physical: (i32, i32)) -> (placement: LayerPlacement)
    ensures
        placement.namespace@ == LAUNCHER_NAMESPACE@,
        placement.layer == LayerShellLayer::Overlay,
        placement.anchor == (LayerAnchor { top: false, bottom: false, left: false, right: false }),
        placement.margin == (LayerMargin { top: 0, right: 0, bottom: 0, left: 0 }),
        placement.size == physical,
        placement.exclusive_zone == 0,
        placement.keyboard == LayerKeyboard::Exclusive,
{
    LayerPlacement {
        namespace: String::from_str(LAUNCHER_NAMESPACE),
        layer: LayerShellLayer::Overlay,
        anchor: LayerAnchor::unanchored(),
        margin: LayerMargin::zero(),
        size: physical,
        exclusive_zone: 0,
        keyboard: LayerKeyboard::Exclusive,
    }
}

} // verus!
