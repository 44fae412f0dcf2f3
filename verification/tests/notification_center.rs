use sol_shell::tokens::Motion;
use sol_shell::accessibility::SemanticRole;
use sol_shell::notification_center::{
    NotificationAction, NotificationCenter, NotificationCenterError, NotificationCenterKey,
    NotificationCenterStep, NotificationLifecycle, NotificationRecord, NotificationScope,
    NotificationUrgency,
};

fn action(id: &str, label: &str) -> NotificationAction {
    NotificationAction {
        id: id.to_owned(),
        label: label.to_owned(),
    }
}

fn record(
    id: u64,
    app_id: &str,
    urgency: NotificationUrgency,
    actions: Vec<NotificationAction>,
    sequence: u64,
) -> NotificationRecord {
    NotificationRecord {
        id,
        sequence,
        app_id: app_id.to_owned(),
        urgency,
        summary: format!("Notice {id}"),
        body: None,
        lifecycle: NotificationLifecycle::Active,
        actions,
    }
}

#[test]
fn center_groups_urgency_and_exposes_semantic_actions() {
    let mut center = NotificationCenter::new();
    center.refresh_with(vec![
        record(1, "org.sol.files", NotificationUrgency::Low, vec![], 1),
        record(
            2,
            "org.sol.files",
            NotificationUrgency::Critical,
            vec![action("open", "Open")],
            3,
        ),
        record(3, "org.sol.settings", NotificationUrgency::Normal, vec![], 2),
    ]);
    let groups = center.groups();
    assert_eq!(groups.len(), 3);
    assert_eq!(groups[0].key.urgency, NotificationUrgency::Critical);
    assert_eq!(groups[1].key.app_id, "org.sol.settings");
    assert_eq!(groups[2].key.urgency, NotificationUrgency::Low);
    assert_eq!(center.accessibility_tree().children.len(), 3);
    assert_eq!(center.visual_tokens().motion, Motion::Panel);
    // The projection is newest first, so the first record takes focus.
    let mut center = NotificationCenter::new();
    center.refresh_with(vec![
        record(
            2,
            "org.sol.files",
            NotificationUrgency::Critical,
            vec![action("open", "Open")],
            3,
        ),
        record(3, "org.sol.settings", NotificationUrgency::Normal, vec![], 2),
        record(1, "org.sol.files", NotificationUrgency::Low, vec![], 1),
    ]);
    assert_eq!(
        center.handle_key(NotificationCenterKey::ArrowDown).unwrap(),
        NotificationCenterStep::FocusChanged(2)
    );
    assert_eq!(
        center.handle_key(NotificationCenterKey::Enter).unwrap(),
        NotificationCenterStep::InvokeAction(2, "open".to_owned())
    );
}

#[test]
fn center_dismisses_through_adapter_and_history_retains_lifecycle() {
    let mut center = NotificationCenter::new();
    center.refresh_with(vec![record(
        4,
        "org.sol.files",
        NotificationUrgency::Normal,
        vec![action("open", "Open")],
        4,
    )]);
    center.handle_key(NotificationCenterKey::ArrowDown).unwrap();
    assert_eq!(
        center.handle_key(NotificationCenterKey::Delete).unwrap(),
        NotificationCenterStep::Dismiss(4)
    );
    // The service dismissed it: the active projection no longer holds it.
    center.refresh_with(Vec::new());
    assert!(center.records().is_empty());
    assert_eq!(center.focused(), None);
    center.set_scope(NotificationScope::History);
    let mut dismissed = record(
        4,
        "org.sol.files",
        NotificationUrgency::Normal,
        vec![action("open", "Open")],
        4,
    );
    dismissed.lifecycle = NotificationLifecycle::Dismissed;
    center.refresh_with(vec![dismissed]);
    assert_eq!(center.records().len(), 1);
    assert_eq!(
        center.handle_key(NotificationCenterKey::Enter),
        Ok(NotificationCenterStep::Ignored)
    );
}

#[test]
fn sections_hold_their_records_newest_first() {
    let mut center = NotificationCenter::new();
    center.refresh_with(vec![
        record(1, "org.sol.files", NotificationUrgency::Normal, vec![], 5),
        record(2, "org.sol.files", NotificationUrgency::Normal, vec![], 9),
        record(3, "org.sol.mail", NotificationUrgency::Normal, vec![], 7),
        record(4, "org.sol.files", NotificationUrgency::Normal, vec![], 7),
    ]);
    let groups = center.groups();
    assert_eq!(groups.len(), 2);
    assert_eq!(groups[0].key.app_id, "org.sol.files");
    let ids: Vec<u64> = groups[0].records.iter().map(|r| r.id).collect();
    assert_eq!(ids, vec![2, 4, 1]);
    assert_eq!(groups[1].records.len(), 1);
    assert!(NotificationCenter::new().groups().is_empty());
}

#[test]
fn focus_wraps_and_escape_clears_it() {
    let mut center = NotificationCenter::new();
    center.refresh_with(vec![
        record(7, "org.sol.files", NotificationUrgency::Normal, vec![], 2),
        record(8, "org.sol.files", NotificationUrgency::Normal, vec![], 1),
    ]);
    assert_eq!(
        center.handle_key(NotificationCenterKey::ArrowUp).unwrap(),
        NotificationCenterStep::FocusChanged(8)
    );
    assert_eq!(
        center.handle_key(NotificationCenterKey::ArrowDown).unwrap(),
        NotificationCenterStep::FocusChanged(7)
    );
    assert_eq!(
        center.handle_key(NotificationCenterKey::Enter),
        Err(NotificationCenterError::NoAction(7))
    );
    assert_eq!(
        center.handle_key(NotificationCenterKey::Escape).unwrap(),
        NotificationCenterStep::FocusCleared
    );
    assert_eq!(center.focused(), None);
    assert_eq!(
        center.handle_key(NotificationCenterKey::Delete).unwrap(),
        NotificationCenterStep::Ignored
    );
}

#[test]
fn acting_on_a_record_outside_the_projection_is_refused() {
    let mut center = NotificationCenter::new();
    center.refresh_with(vec![record(
        5,
        "org.sol.files",
        NotificationUrgency::Low,
        vec![],
        1,
    )]);
    assert_eq!(center.require_visible(5), Ok(()));
    assert_eq!(
        center.require_visible(6),
        Err(NotificationCenterError::NotVisible(6))
    );
    assert!(matches!(
        center.record(6),
        Err(NotificationCenterError::NotVisible(6))
    ));
    assert_eq!(center.scope(), NotificationScope::Active);
}

#[test]
fn the_accessibility_tree_names_sections_records_and_actions() {
    let mut center = NotificationCenter::new();
    center.refresh_with(vec![
        record(
            12,
            "org.sol.files",
            NotificationUrgency::Critical,
            vec![action("open", "Open")],
            3,
        ),
        record(7, "org.sol.settings", NotificationUrgency::Normal, vec![], 2),
    ]);
    center.handle_key(NotificationCenterKey::ArrowDown).unwrap();
    let tree = center.accessibility_tree();
    assert_eq!(tree.id, "notification-center");
    assert_eq!(tree.label, "Notification Center");
    assert_eq!(tree.value.as_deref(), Some("active notifications"));
    assert_eq!(tree.role, SemanticRole::Group);
    let files = &tree.children[0];
    assert_eq!(files.id, "notification-group-org.sol.files-Critical");
    assert_eq!(files.label, "org.sol.files Critical");
    assert_eq!(files.value.as_deref(), Some("1 notifications"));
    let card = &files.children[0];
    assert_eq!(card.id, "notification-12");
    assert_eq!(card.label, "Notice 12");
    assert_eq!(card.role, SemanticRole::Button);
    assert!(card.state.focused && card.state.selected && !card.state.disabled);
    assert_eq!(card.children[0].id, "notification-action-12-open");
    assert_eq!(card.children[0].label, "Open");
    assert_eq!(card.children[0].value.as_deref(), Some("open"));
    let settings = &tree.children[1];
    assert_eq!(settings.id, "notification-group-org.sol.settings-Normal");
    assert!(!settings.children[0].state.focused);
    center.set_scope(NotificationScope::History);
    assert_eq!(
        center.accessibility_tree().value.as_deref(),
        Some("notification history")
    );
}

#[test]
fn center_errors_describe_themselves() {
    assert_eq!(
        NotificationCenterError::NotVisible(5).message(),
        "notification 5 is not visible in this center scope"
    );
    assert_eq!(
        NotificationCenterError::NoAction(12).message(),
        "notification 12 has no declared actions"
    );
    assert_eq!(
        NotificationCenterError::Service("service unavailable".to_owned()).message(),
        "service unavailable"
    );
}

#[test]
fn records_of_equal_sequence_keep_their_service_order() {
    let mut center = NotificationCenter::new();
    center.refresh_with(vec![
        record(3, "org.sol.files", NotificationUrgency::Normal, vec![], 5),
        record(1, "org.sol.files", NotificationUrgency::Normal, vec![], 7),
        record(2, "org.sol.files", NotificationUrgency::Normal, vec![], 5),
        record(4, "org.sol.files", NotificationUrgency::Normal, vec![], 5),
    ]);
    let groups = center.groups();
    let ids: Vec<u64> = groups[0].records.iter().map(|record| record.id).collect();
    assert_eq!(ids, vec![1, 3, 2, 4]);
}
