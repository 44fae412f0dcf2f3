use sol_shell::overview::{
    OverviewFocus, OverviewWindowId, OverviewWindowSnapshot, WorkspaceAction, WorkspaceBridge,
    WorkspaceBridgeError, WorkspaceId, WorkspaceSnapshot, WorkspaceSnapshotSet,
};
use sol_shell::overview_surface::{
    accessibility_tree, bridge_error, MemoryThumbnailProvider, MemoryWorkspaceBridge, OverviewSurfaceError,
    ThumbnailProvider, WindowThumbnail,
};

#[test]
fn malformed_thumbnail_is_rejected_before_allocation() {
    assert_eq!(
        WindowThumbnail::new(2, 2, vec![0; 3]),
        Err(OverviewSurfaceError::InvalidThumbnail)
    );
}

#[test]
fn thumbnails_are_bounded_and_exactly_sized() {
    assert!(WindowThumbnail::new(2, 2, vec![0; 16]).is_ok());
    assert_eq!(WindowThumbnail::new(0, 2, vec![]), Err(OverviewSurfaceError::InvalidThumbnail));
    assert_eq!(
        WindowThumbnail::new(4097, 1, vec![0; 4097 * 4]),
        Err(OverviewSurfaceError::InvalidThumbnail)
    );
    assert!(WindowThumbnail::new(4096, 1, vec![0; 4096 * 4]).is_ok());
}

#[test]
fn a_memory_provider_returns_the_recorded_thumbnail() {
    let thumbnail = WindowThumbnail::new(1, 1, vec![1, 2, 3, 4]).unwrap();
    let mut provider = MemoryThumbnailProvider(vec![(OverviewWindowId::new(7), thumbnail.clone())]);
    assert_eq!(provider.thumbnail(OverviewWindowId::new(7)).unwrap(), Some(thumbnail));
    assert_eq!(provider.thumbnail(OverviewWindowId::new(8)).unwrap(), None);
}

#[test]
fn a_memory_bridge_records_intents() {
    let mut bridge = MemoryWorkspaceBridge {
        state: WorkspaceSnapshotSet { active: WorkspaceId::new(1), workspaces: Vec::new() },
        actions: Vec::new(),
    };
    bridge
        .dispatch(WorkspaceAction::SwitchWorkspace { workspace: WorkspaceId::new(1) })
        .unwrap();
    assert_eq!(bridge.actions.len(), 1);
    assert_eq!(bridge.snapshot().unwrap().active, WorkspaceId::new(1));
}

#[test]
fn surface_errors_name_what_failed() {
    assert_eq!(OverviewSurfaceError::InvalidThumbnail.message(), "invalid overview thumbnail");
    let error = bridge_error(&WorkspaceBridgeError::new("socket closed".to_owned()));
    assert_eq!(error, OverviewSurfaceError::Bridge("socket closed".to_owned()));
    assert_eq!(error.message(), "overview compositor bridge failed: socket closed");
}

fn two_workspaces() -> WorkspaceSnapshotSet {
    WorkspaceSnapshotSet {
        active: WorkspaceId::new(1),
        workspaces: vec![
            WorkspaceSnapshot {
                id: WorkspaceId::new(1),
                label: "Main".into(),
                windows: vec![OverviewWindowSnapshot {
                    id: OverviewWindowId::new(7),
                    title: "Files".into(),
                    application: "org.sol.files".into(),
                    focused: true,
                }],
            },
            WorkspaceSnapshot {
                id: WorkspaceId::new(2),
                label: "Code".into(),
                windows: vec![],
            },
        ],
    }
}

#[test]
fn the_surface_tree_has_one_column_per_workspace_with_its_cards() {
    let snapshots = two_workspaces();
    let tree = accessibility_tree(&snapshots, OverviewFocus::Workspace(WorkspaceId::new(1)));
    assert_eq!(tree.children.len(), 2);
    assert_eq!(tree.id, "overview.surface");
    assert_eq!(tree.label, "Workspace overview (2)");
    assert_eq!(tree.value.as_deref(), Some("1"));
    let main = &tree.children[0];
    assert_eq!(main.id, "overview.workspace.1");
    assert_eq!(main.label, "Main");
    assert!(main.state.focused && main.state.selected);
    assert_eq!(main.children.len(), 1);
    assert_eq!(main.children[0].id, "overview.window.7");
    assert_eq!(main.children[0].label, "Files - org.sol.files");
    assert!(!main.children[0].state.focused);
    assert!(tree.children[1].children.is_empty());
    assert!(!tree.children[1].state.selected);

    let focus = OverviewFocus::Window {
        workspace: WorkspaceId::new(1),
        window: OverviewWindowId::new(7),
    };
    let tree = accessibility_tree(&snapshots, focus);
    assert_eq!(tree.value.as_deref(), Some("7"));
    assert!(!tree.children[0].state.focused);
    assert!(tree.children[0].children[0].state.focused);
    assert!(tree.children[0].children[0].state.selected);
}
