use sol_shell::keys::Key;
use sol_shell::launcher::{AppCatalogEntry, AppIdentity, LocalSearchIndex, SearchMatch};
use sol_shell::overlay::LayerShellLayer;
use sol_shell::scp_host::{LayerAnchor, LayerKeyboard};
use sol_shell::launcher_surface::{
    launcher_placement, LAUNCHER_NAMESPACE,
    accessibility_tree, launcher_grid, LauncherGrid, LauncherOutcome, LauncherSurface, COLUMNS,
    MAX_ROWS,
};
use sol_shell::accessibility::SemanticRole;

fn entry(app_id: &str, name: &str, keywords: &[&str]) -> AppCatalogEntry {
    AppCatalogEntry::new(
        AppIdentity {
            app_id: app_id.to_owned(),
            display_name: name.to_owned(),
        },
        keywords.iter().map(|keyword| (*keyword).to_owned()).collect(),
    )
}

fn catalog() -> Vec<AppCatalogEntry> {
    vec![
        entry("org.sol.files", "Files", &["browser"]),
        entry("org.sol.settings", "Settings", &["preferences"]),
        entry("org.sol.terminal", "Terminal", &["console", "shell"]),
    ]
}

fn surface_over(entries: Vec<AppCatalogEntry>) -> LauncherSurface {
    let mut index = LocalSearchIndex::new();
    for entry in entries {
        index.upsert(entry);
    }
    LauncherSurface::new(index)
}

fn opened() -> LauncherSurface {
    let mut surface = surface_over(catalog());
    surface.open();
    surface
}

fn grid(surface: &LauncherSurface) -> LauncherGrid {
    launcher_grid(&surface.visible_entries(), surface.selected())
}

fn labels(grid: &LauncherGrid) -> Vec<&str> {
    grid.tiles.iter().map(|tile| tile.label.as_str()).collect()
}

#[test]
fn the_launcher_is_closed_until_it_is_opened() {
    let mut surface = surface_over(catalog());
    assert!(!surface.is_visible());
    surface.open();
    assert!(surface.is_visible());
}

#[test]
fn an_empty_query_shows_the_whole_catalog_in_stable_order() {
    let surface = opened();
    let grid = grid(&surface);

    assert_eq!(labels(&grid), ["Files", "Settings", "Terminal"]);
    assert_eq!(grid.overflow, 0);
}

#[test]
fn keys_are_ignored_while_the_launcher_is_closed() {
    let mut surface = surface_over(catalog());
    assert_eq!(
        surface.handle_key(Key::Character('t')),
        LauncherOutcome::Ignored
    );
    assert_eq!(surface.query(), "");
}

#[test]
fn typing_filters_by_the_catalogs_own_ranking() {
    let mut surface = opened();
    assert_eq!(
        surface.handle_key(Key::Character('t')),
        LauncherOutcome::Changed
    );
    let grid = grid(&surface);

    assert_eq!(surface.query(), "t");
    // Both entries match, and the catalog's ranking decides the order: a
    // title prefix outranks a title substring. The surface does not reorder.
    assert_eq!(labels(&grid), ["Terminal", "Settings"]);
    assert_eq!(grid.tiles[0].matched_on, Some(SearchMatch::Title));
}

#[test]
fn a_keyword_match_is_reported_as_a_keyword_match() {
    let mut surface = opened();
    for character in "console".chars() {
        surface.handle_key(Key::Character(character));
    }
    let grid = grid(&surface);

    assert_eq!(grid.tiles.len(), 1);
    assert_eq!(grid.tiles[0].matched_on, Some(SearchMatch::Keyword));
}

#[test]
fn backspace_widens_the_query_again_and_stops_at_empty() {
    let mut surface = opened();
    surface.handle_key(Key::Character('t'));
    assert_eq!(surface.handle_key(Key::Backspace), LauncherOutcome::Changed);
    assert_eq!(surface.query(), "");
    assert_eq!(surface.handle_key(Key::Backspace), LauncherOutcome::Ignored);
}

#[test]
fn selection_wraps_within_the_visible_results() {
    let mut surface = opened();
    surface.handle_key(Key::ArrowLeft);
    assert!(grid(&surface).tiles[2].selected, "selection wraps to the end");

    surface.handle_key(Key::ArrowRight);
    assert!(grid(&surface).tiles[0].selected);
}

#[test]
fn a_narrowed_query_resets_the_selection_to_the_top_result() {
    let mut surface = opened();
    surface.handle_key(Key::ArrowRight);
    surface.handle_key(Key::Character('s'));

    assert!(grid(&surface).tiles[0].selected);
}

#[test]
fn activation_asks_the_shell_to_launch_rather_than_launching() {
    let mut surface = opened();
    let outcome = surface.handle_key(Key::Enter);

    assert_eq!(outcome, LauncherOutcome::Launch("org.sol.files".to_owned()));
    assert!(
        surface.is_visible(),
        "the Launcher does not close itself on a request the Shell may still deny"
    );
}

#[test]
fn activating_with_no_match_does_nothing() {
    let mut surface = opened();
    for character in "zzz".chars() {
        surface.handle_key(Key::Character(character));
    }
    assert_eq!(surface.handle_key(Key::Enter), LauncherOutcome::Ignored);
}

#[test]
fn escape_dismisses_and_a_closed_launcher_ignores_further_keys() {
    let mut surface = opened();
    assert_eq!(surface.handle_key(Key::Escape), LauncherOutcome::Dismissed);
    assert!(!surface.is_visible());
    assert_eq!(
        surface.handle_key(Key::Character('a')),
        LauncherOutcome::Ignored
    );
}

#[test]
fn reopening_starts_from_an_empty_query() {
    let mut surface = opened();
    surface.handle_key(Key::Character('t'));
    surface.close();
    surface.open();

    assert_eq!(surface.query(), "");
    assert_eq!(grid(&surface).tiles.len(), 3);
}

#[test]
fn toggling_opens_and_then_withdraws_the_launcher() {
    let mut surface = surface_over(catalog());
    assert!(surface.toggle());
    assert!(surface.is_visible());
    assert!(!surface.toggle());
    assert!(!surface.is_visible());
}

#[test]
fn a_catalog_larger_than_the_grid_reports_its_overflow() {
    let mut entries = catalog();
    for index in 0..20 {
        entries.push(entry(
            &format!("org.sol.app{index}"),
            &format!("App{index}"),
            &[],
        ));
    }
    let mut surface = surface_over(entries);
    surface.open();
    let grid = grid(&surface);

    assert_eq!(grid.tiles.len(), COLUMNS * MAX_ROWS);
    assert_eq!(grid.overflow, 23 - COLUMNS * MAX_ROWS);
}

#[test]
fn tiles_carry_their_application_identity_and_mark() {
    let surface = opened();
    let grid = grid(&surface);
    assert_eq!(grid.tiles[1].id, "launcher.org.sol.settings");
    assert_eq!(grid.tiles[1].app_id, "org.sol.settings");
    assert_eq!(grid.tiles[1].mark, "S");
    assert_eq!(grid.tiles[1].matched_on, None);
    assert!(grid.tiles[0].selected && !grid.tiles[1].selected);
}

#[test]
fn the_launcher_tree_puts_the_search_field_first_and_marks_the_selection() {
    let mut surface = opened();
    surface.handle_key(Key::Character('t'));
    let entries = surface.visible_entries();
    let grid = launcher_grid(&entries, surface.selected());
    let tree = accessibility_tree(&grid.tiles, surface.query(), entries.len());
    assert_eq!(tree.id, "launcher-surface");
    assert_eq!(tree.label, "Application Launcher");
    assert_eq!(tree.value.as_deref(), Some("2 applications"));
    assert_eq!(tree.children.len(), grid.tiles.len() + 1);
    let search = &tree.children[0];
    assert_eq!(search.id, "launcher.search");
    assert_eq!(search.role, SemanticRole::TextField);
    assert_eq!(search.value.as_deref(), Some("t"));
    assert!(search.state.focused && search.state.editable);
    let first = &tree.children[1];
    assert_eq!(first.id, "launcher.org.sol.terminal");
    assert_eq!(first.label, "Terminal");
    assert_eq!(first.value.as_deref(), Some("org.sol.terminal"));
    assert!(first.state.focused && first.state.selected);
    assert!(!tree.children[2].state.selected);
}

#[test]
fn the_launcher_is_a_centred_overlay_that_owns_the_keyboard() {
    let placement = launcher_placement((640, 480));
    assert_eq!(placement.namespace, LAUNCHER_NAMESPACE);
    assert_eq!(placement.layer, LayerShellLayer::Overlay);
    assert_eq!(placement.anchor, LayerAnchor::unanchored());
    assert_eq!(placement.keyboard, LayerKeyboard::Exclusive);
    assert_eq!(placement.exclusive_zone, 0);
    assert_eq!(placement.size, (640, 480));
}
