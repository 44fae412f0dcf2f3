use sol_shell::overlay::LayerShellLayer;
use sol_shell::scp_host::{LayerAnchor, LayerKeyboard};
use sol_shell::dock_surface::{
    dock_placement, DOCK_NAMESPACE,
    accessibility_tree, dock_tiles, initial, tile_state, DockTarget, LAUNCHER_TILE_ID,
};
use sol_shell::launcher::{AppCatalogEntry, AppIdentity, DockItem};

fn entry(app_id: &str, name: &str) -> AppCatalogEntry {
    AppCatalogEntry::new(
        AppIdentity {
            app_id: app_id.to_owned(),
            display_name: name.to_owned(),
        },
        Vec::new(),
    )
}

fn items() -> Vec<DockItem> {
    vec![
        DockItem {
            entry: entry("org.sol.files", "Files"),
            pinned: true,
            running: false,
        },
        DockItem {
            entry: entry("org.sol.terminal", "Terminal"),
            pinned: false,
            running: true,
        },
    ]
}

#[test]
fn the_launcher_entry_is_always_first_and_always_present() {
    let tiles = dock_tiles(&Vec::new());

    assert_eq!(tiles.len(), 1);
    assert_eq!(tiles[0].id, LAUNCHER_TILE_ID);
    assert_eq!(tiles[0].target, DockTarget::Launcher);
}

#[test]
fn tiles_follow_the_launcher_in_model_order_with_their_state_intact() {
    let tiles = dock_tiles(&items());

    assert_eq!(tiles.len(), 3);
    assert_eq!(tiles[1].label, "Files");
    assert!(tiles[1].pinned && !tiles[1].running);
    assert_eq!(tiles[2].label, "Terminal");
    assert!(!tiles[2].pinned && tiles[2].running);
    assert_eq!(tiles[2].mark, "T");
    assert_eq!(
        tiles[1].target,
        DockTarget::Application("org.sol.files".to_owned())
    );
    assert_eq!(tiles[1].id, "dock.org.sol.files");
}

#[test]
fn a_tile_mark_is_the_upper_case_initial_of_its_name() {
    assert_eq!(initial("files"), "F");
    assert_eq!(initial("éclair"), "É");
    assert_eq!(initial(""), "?");
}

#[test]
fn a_tile_state_names_pin_and_run_state() {
    assert_eq!(tile_state(true, true), "Pinned, running");
    assert_eq!(tile_state(true, false), "Pinned");
    assert_eq!(tile_state(false, true), "Running");
    assert_eq!(tile_state(false, false), "Available");
}

#[test]
fn the_focused_application_is_marked_in_the_accessibility_tree() {
    let tiles = dock_tiles(&items());
    let tree = accessibility_tree(&tiles, &Some("org.sol.terminal".to_owned()));

    let terminal = &tree.children[2];
    assert!(terminal.state.focused);
    assert!(!tree.children[1].state.focused);
}

#[test]
fn the_dock_tree_names_every_tile_with_its_state() {
    let tiles = dock_tiles(&items());
    let tree = accessibility_tree(&tiles, &None);
    assert_eq!(tree.id, "dock-surface");
    assert_eq!(tree.label, "SOL Dock");
    assert_eq!(tree.value.as_deref(), Some("3 entries"));
    let launcher = &tree.children[0];
    assert_eq!(launcher.id, LAUNCHER_TILE_ID);
    assert_eq!(launcher.label, "Application Launcher");
    assert_eq!(launcher.value.as_deref(), Some("Pinned"));
    assert!(!launcher.state.focused);
    assert_eq!(tree.children[1].value.as_deref(), Some("Pinned"));
    assert_eq!(tree.children[2].value.as_deref(), Some("Running"));
    assert!(tree.children[2].state.selected);
    assert!(!tree.children[1].state.selected);
    assert!(tree.children.iter().all(|node| !node.state.focused));
}

#[test]
fn the_dock_is_placed_bottom_centre_on_the_top_layer_without_reserving_area() {
    let placement = dock_placement((400, 96), 8);
    assert_eq!(placement.namespace, DOCK_NAMESPACE);
    assert_eq!(placement.layer, LayerShellLayer::Top);
    assert_eq!(placement.anchor, LayerAnchor::bottom_center());
    assert!(!placement.anchor.left && !placement.anchor.right);
    assert_eq!(placement.margin.bottom, 8);
    assert_eq!(placement.size, (400, 96));
    assert_eq!(placement.exclusive_zone, 0);
    assert_eq!(placement.keyboard, LayerKeyboard::NoFocus);
}
