use sol_shell::notification_center::{
    NotificationAction, NotificationLifecycle, NotificationRecord, NotificationUrgency,
};
use sol_shell::overlay::{Anchor, ExclusiveZone, InputRegion, LayerShellLayer};
use sol_shell::notification_surface::{
    surface_layer_policy,
    accessibility_tree, visible_cards, NotificationLifetime, NotificationPolicy,
    NotificationSurfaceError,
};

fn record(id: u64, with_action: bool, urgency: NotificationUrgency) -> NotificationRecord {
    NotificationRecord {
        id,
        sequence: id,
        app_id: "org.sol.files".to_owned(),
        urgency,
        summary: format!("Notice {id}"),
        body: Some("Body".to_owned()),
        lifecycle: NotificationLifecycle::Active,
        actions: if with_action {
            vec![NotificationAction {
                id: "open".to_owned(),
                label: "Open".to_owned(),
            }]
        } else {
            Vec::new()
        },
    }
}

#[test]
fn native_surface_projects_scaled_cards_and_policy() {
    let records = vec![
        record(1, true, NotificationUrgency::Normal),
        record(2, false, NotificationUrgency::Normal),
    ];
    let cards = visible_cards(&records, NotificationPolicy::default(), None);
    assert_eq!(cards.len(), 2);
    let tree = accessibility_tree(&records, NotificationPolicy::default(), None);
    assert_eq!(tree.children.len(), 2);
    assert_eq!(cards[0].dismiss_after_ms, Some(8000));
    assert_eq!(cards[0].id, 1);
    assert!(!cards[0].focused);
    assert_eq!(cards[0].app_id, "org.sol.files");
    assert_eq!(cards[0].summary, "Notice 1");
    assert_eq!(cards[0].body.as_deref(), Some("Body"));
    assert_eq!(cards[0].urgency, NotificationUrgency::Normal);
    assert_eq!(cards[0].lifecycle, NotificationLifecycle::Active);
    assert_eq!(cards[0].actions, vec!["open".to_owned()]);
    assert!(cards[1].actions.is_empty());
}

#[test]
fn invalid_policy_and_output_are_rejected() {
    assert!(NotificationPolicy {
        max_visible: 0,
        ..NotificationPolicy::default()
    }
    .validate()
    .is_err());
    assert_eq!(
        NotificationPolicy {
            low: NotificationLifetime::Timed(0),
            ..NotificationPolicy::default()
        }
        .validate(),
        Err(NotificationSurfaceError::InvalidPolicy(
            "timed lifetimes must be non-zero"
        ))
    );
    let policy = NotificationPolicy::default();
    assert_eq!(policy.validate(), Ok(policy));
}

#[test]
fn dismissed_records_and_overflow_are_not_shown_and_critical_cards_stick() {
    let mut dismissed = record(3, false, NotificationUrgency::Low);
    dismissed.lifecycle = NotificationLifecycle::Dismissed;
    let records = vec![
        record(1, false, NotificationUrgency::Critical),
        dismissed,
        record(4, false, NotificationUrgency::Low),
        record(5, false, NotificationUrgency::Normal),
    ];
    let policy = NotificationPolicy {
        max_visible: 2,
        ..NotificationPolicy::default()
    };
    let cards = visible_cards(&records, policy, Some(4));
    let ids: Vec<u64> = cards.iter().map(|card| card.id).collect();
    assert_eq!(ids, vec![1, 4]);
    assert_eq!(cards[0].dismiss_after_ms, None);
    assert_eq!(cards[1].dismiss_after_ms, Some(5000));
    assert!(cards[1].focused && !cards[0].focused);
    assert_eq!(
        policy.lifetime(NotificationUrgency::Critical),
        NotificationLifetime::Sticky
    );
}

#[test]
fn the_surface_tree_has_one_card_node_per_shown_card() {
    let mut dismissed = record(3, false, NotificationUrgency::Low);
    dismissed.lifecycle = NotificationLifecycle::Dismissed;
    let records = vec![
        record(1, true, NotificationUrgency::Normal),
        dismissed,
        record(2, false, NotificationUrgency::Critical),
    ];
    let policy = NotificationPolicy {
        max_visible: 1,
        ..NotificationPolicy::default()
    };
    let tree = accessibility_tree(&records, policy, Some(1));
    assert_eq!(tree.id, "notification-surface");
    assert_eq!(tree.label, "Notifications");
    assert_eq!(tree.value.as_deref(), Some("1 visible notifications"));
    assert_eq!(tree.children.len(), 1);
    let card = &tree.children[0];
    assert_eq!(card.id, "notification-surface.1");
    assert_eq!(card.label, "Notice 1");
    assert_eq!(card.value.as_deref(), Some("Body"));
    assert!(card.state.focused && card.state.selected);
    assert_eq!(card.children[0].id, "notification-surface.1.action.open");
    assert_eq!(card.children[0].label, "open");
    assert_eq!(card.children[0].value, None);
    let all = accessibility_tree(&records, NotificationPolicy::default(), None);
    let ids: Vec<&str> = all.children.iter().map(|node| node.id.as_str()).collect();
    assert_eq!(ids, ["notification-surface.1", "notification-surface.2"]);
}

#[test]
fn the_surface_sits_top_right_on_the_overlay_layer_and_takes_input() {
    assert_eq!(
        surface_layer_policy(),
        (
            LayerShellLayer::Overlay,
            Anchor::TopRight,
            ExclusiveZone::NoReservation,
            InputRegion::Interactive
        )
    );
}
