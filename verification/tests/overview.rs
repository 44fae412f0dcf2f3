use sol_shell::overview_surface::MemoryWorkspaceBridge;
use sol_shell::tokens::Motion;
use sol_shell::overview::{
    GestureDirection, OverviewError, OverviewFocus, OverviewKey, OverviewModel, OverviewOutcome,
    OverviewVisibility, OverviewWindowId, OverviewWindowSnapshot, WorkspaceAction,
    WorkspaceGesturePhase, WorkspaceId, WorkspaceSnapshot,
    WorkspaceSnapshotSet,
};

fn workspace(id: u32, label: &str, windows: &[(u64, &str)]) -> WorkspaceSnapshot {
    WorkspaceSnapshot {
        id: WorkspaceId::new(id),
        label: label.to_owned(),
        windows: windows
            .iter()
            .enumerate()
            .map(|(index, (id, title))| OverviewWindowSnapshot {
                id: OverviewWindowId::new(*id),
                title: (*title).to_owned(),
                application: "org.sol.fixture".to_owned(),
                focused: index == 0,
            })
            .collect(),
    }
}

fn fixture() -> WorkspaceSnapshotSet {
    WorkspaceSnapshotSet {
        active: WorkspaceId::new(1),
        workspaces: vec![
            workspace(1, "Workspace 1", &[(10, "Files"), (11, "Terminal")]),
            workspace(2, "Workspace 2", &[(20, "Settings")]),
            workspace(3, "Workspace 3", &[]),
        ],
    }
}

#[test]
fn overview_projects_snapshot_keyboard_actions_and_accessibility() {
    let mut overview = OverviewModel::new(fixture()).expect("fixture should be valid");
    overview.enter();
    assert_eq!(overview.visibility(), OverviewVisibility::Visible);
    assert_eq!(
        overview.handle_key(OverviewKey::ArrowRight),
        OverviewOutcome::FocusChanged(OverviewFocus::Workspace(WorkspaceId::new(2)))
    );
    assert_eq!(
        overview.handle_key(OverviewKey::Enter),
        OverviewOutcome::Action(WorkspaceAction::SwitchWorkspace {
            workspace: WorkspaceId::new(2)
        })
    );
    assert!(matches!(
        overview.handle_key(OverviewKey::ArrowDown),
        OverviewOutcome::FocusChanged(OverviewFocus::Window { .. })
    ));
    let move_intent = overview
        .move_focused_window(WorkspaceId::new(3))
        .expect("focused window should move");
    assert_eq!(
        move_intent,
        WorkspaceAction::MoveWindow {
            window: OverviewWindowId::new(20),
            workspace: WorkspaceId::new(3)
        }
    );
    let tree = overview.accessibility_tree();
    assert_eq!(tree.label, "Workspace overview");
    assert_eq!(tree.children.len(), 3);
    assert_eq!(tree.children[0].children[0].label, "Files");
    assert_eq!(overview.visual_tokens().motion, Motion::Workspace);
}

#[test]
fn the_accessibility_tree_marks_focus_activity_and_window_counts() {
    let mut overview = OverviewModel::new(fixture()).expect("fixture should be valid");
    let tree = overview.accessibility_tree();
    assert_eq!(tree.id, "overview");
    assert_eq!(tree.value.as_deref(), Some("hidden"));
    let first = &tree.children[0];
    assert_eq!(first.id, "workspace-1");
    assert_eq!(first.label, "Workspace 1");
    assert_eq!(first.value.as_deref(), Some("2 windows"));
    assert!(first.state.selected && first.state.focused);
    assert!(!tree.children[1].state.selected);
    assert_eq!(tree.children[2].value.as_deref(), Some("0 windows"));
    assert!(tree.children[2].children.is_empty());
    let files = &first.children[0];
    assert_eq!(files.id, "window-10");
    assert_eq!(files.value.as_deref(), Some("org.sol.fixture"));
    assert!(files.state.selected && !files.state.focused);
    overview.enter();
    overview.handle_key(OverviewKey::ArrowDown);
    let tree = overview.accessibility_tree();
    assert_eq!(tree.value.as_deref(), Some("visible"));
    assert!(!tree.children[0].state.focused);
    assert!(tree.children[0].children[0].state.focused);
}

#[test]
fn overview_bridge_refresh_and_dispatch_stay_at_typed_boundary() {
    let mut overview = OverviewModel::new(fixture()).expect("fixture should be valid");
    let mut bridge = MemoryWorkspaceBridge {
        state: fixture(),
        actions: Vec::new(),
    };
    overview
        .refresh_from(&bridge)
        .expect("fixture bridge should refresh");
    overview
        .dispatch(
            &mut bridge,
            WorkspaceAction::SwitchWorkspace {
                workspace: WorkspaceId::new(2),
            },
        )
        .expect("fixture bridge should receive action");
    assert_eq!(bridge.actions.len(), 1);
}

#[test]
fn gesture_progress_is_interruptible_cancellable_and_reduced_motion_safe() {
    let workspaces = [WorkspaceId::new(1), WorkspaceId::new(2), WorkspaceId::new(3)];
    let mut gesture = WorkspaceGesturePhase::Idle;
    gesture
        .begin(WorkspaceId::new(1), GestureDirection::Next, &workspaces)
        .expect("next workspace should exist");
    gesture.update().expect("tracking update should work");
    let cancelled = gesture.settle(true, false).expect("cancel should settle");
    assert_eq!(cancelled, WorkspaceId::new(1));
    assert_eq!(
        gesture.complete_settle().expect("settle should produce action"),
        WorkspaceAction::SwitchWorkspace {
            workspace: WorkspaceId::new(1)
        }
    );

    gesture
        .begin(WorkspaceId::new(1), GestureDirection::Next, &workspaces)
        .expect("a new gesture interrupts the previous settle");
    gesture.update().expect("velocity should be retained");
    let committed = gesture.settle(false, false).expect("end should settle");
    assert_eq!(committed, WorkspaceId::new(2));
    assert_eq!(
        gesture.complete_settle().expect("settle should produce action"),
        WorkspaceAction::SwitchWorkspace {
            workspace: WorkspaceId::new(2)
        }
    );
}

#[test]
fn gesture_rejects_out_of_range_transition_without_mutating_state() {
    let workspaces = [WorkspaceId::new(1), WorkspaceId::new(2)];
    let mut gesture = WorkspaceGesturePhase::Idle;
    assert_eq!(
        gesture.begin(WorkspaceId::new(1), GestureDirection::Previous, &workspaces),
        Err(OverviewError::NoAdjacentWorkspace)
    );
    assert_eq!(gesture, WorkspaceGesturePhase::Idle);
}

#[test]
fn escape_hides_the_overview_without_an_action() {
    let mut overview = OverviewModel::new(fixture()).unwrap();
    assert_eq!(overview.handle_key(OverviewKey::ArrowRight), OverviewOutcome::Ignored);
    overview.enter();
    assert_eq!(overview.handle_key(OverviewKey::Escape), OverviewOutcome::Hidden);
    assert_eq!(overview.visibility(), OverviewVisibility::Hidden);
}

#[test]
fn an_invalid_snapshot_is_rejected() {
    let empty = WorkspaceSnapshotSet { active: WorkspaceId::new(1), workspaces: Vec::new() };
    assert!(OverviewModel::new(empty).is_err());
    let mut missing_active = fixture();
    missing_active.active = WorkspaceId::new(9);
    assert!(OverviewModel::new(missing_active).is_err());
}

#[test]
fn a_short_gesture_settles_back_where_it_started() {
    let workspaces = [WorkspaceId::new(1), WorkspaceId::new(2)];
    let mut gesture = WorkspaceGesturePhase::Idle;
    gesture.begin(WorkspaceId::new(2), GestureDirection::Previous, &workspaces).unwrap();
    assert_eq!(gesture.settle(false, true).unwrap(), WorkspaceId::new(2));
    assert!(gesture.update().is_err());
}

#[test]
fn overview_errors_describe_themselves() {
    assert_eq!(
        OverviewError::UnknownWorkspace(WorkspaceId::new(4)).message(),
        "unknown workspace 4"
    );
    assert_eq!(
        OverviewError::UnknownWindow {
            workspace: WorkspaceId::new(2),
            window: OverviewWindowId::new(9),
        }
        .message(),
        "window 9 is not in workspace 2"
    );
    assert_eq!(
        OverviewError::InvalidSnapshot("at least one workspace is required").message(),
        "invalid workspace snapshot: at least one workspace is required"
    );
    assert_eq!(
        OverviewError::GestureInactive.message(),
        "workspace gesture is not active"
    );
}
