use sol_shell::topbar::{
    ActivityIndicator, AudioStatus, ClockStatus, NetworkStatus, PowerStatus, ProviderState,
    TopBarSnapshot,
};
use sol_shell::accessibility::SemanticRole;
use sol_shell::overlay::LayerShellLayer;
use sol_shell::scp_host::{LayerAnchor, LayerKeyboard};
use sol_shell::topbar_surface::{
    topbar_placement, TOPBAR_NAMESPACE,
    accessibility_tree, foreground_item, mark_stale, network_text, trailing_items, BarItem, ForegroundApplication,
    TextColor, TopBarZone,
};

fn snapshot() -> TopBarSnapshot {
    TopBarSnapshot {
        clock: ProviderState::Available {
            value: ClockStatus {
                time: "09:41".into(),
                date: "2026-08-28".into(),
            },
            stale: false,
        },
        workspace: ProviderState::Unavailable,
        network: ProviderState::Available {
            value: NetworkStatus::Connected {
                name: "SOLNet".into(),
                signal_percent: 80,
            },
            stale: false,
        },
        audio: ProviderState::Available {
            value: AudioStatus {
                volume_percent: 42,
                muted: false,
            },
            stale: false,
        },
        power: ProviderState::Available {
            value: PowerStatus {
                percent: 91,
                charging: false,
            },
            stale: false,
        },
        activity: ProviderState::Unavailable,
    }
}

fn item<'a>(items: &'a [BarItem], id: &str) -> &'a BarItem {
    items
        .iter()
        .find(|item| item.id == id)
        .unwrap_or_else(|| panic!("missing bar item {id}"))
}

#[test]
fn the_upper_right_zone_keeps_its_documented_order() {
    let items = trailing_items(&TopBarSnapshot {
        activity: ProviderState::Available {
            value: vec![ActivityIndicator::Microphone],
            stale: false,
        },
        ..snapshot()
    });

    let trailing: Vec<TopBarZone> = items
        .iter()
        .filter(|item| item.zone != TopBarZone::ForegroundApp)
        .map(|item| item.zone)
        .collect();
    let mut expected = trailing.clone();
    expected.sort_unstable();
    assert_eq!(
        trailing, expected,
        "Live Capsule → status → center → system status"
    );
    assert_eq!(items.last().unwrap().id, "topbar.clock");
}

#[test]
fn the_foreground_zone_stays_on_the_left_and_names_the_verified_app() {
    let foreground = foreground_item(&Some(ForegroundApplication {
        app_id: "org.sol.files".to_owned(),
        display_name: "Files".to_owned(),
    }));
    assert_eq!(foreground.id, "topbar.foreground-app");
    assert_eq!(foreground.zone, TopBarZone::ForegroundApp);
    assert_eq!(foreground.text, "FILES");
    assert!(foreground.label.contains("org.sol.files"));
}

#[test]
fn an_unfocused_desktop_names_the_system_rather_than_guessing_an_app() {
    assert_eq!(foreground_item(&None).text, "SOL");
    assert_eq!(foreground_item(&None).label, "No focused application");
}

#[test]
fn a_focus_change_replaces_the_whole_identity_at_once() {
    let foreground = foreground_item(&Some(ForegroundApplication {
        app_id: "org.sol.terminal".to_owned(),
        display_name: "Terminal".to_owned(),
    }));
    assert_eq!(foreground.text, "TERMINAL");
    assert!(!foreground.label.contains("files"));
}

#[test]
fn provider_failures_are_shown_as_failures_and_not_as_values() {
    let items = trailing_items(&TopBarSnapshot {
        power: ProviderState::Unavailable,
        network: ProviderState::Error("NetworkManager unreachable".into()),
        audio: ProviderState::Available {
            value: AudioStatus {
                volume_percent: 42,
                muted: false,
            },
            stale: true,
        },
        ..snapshot()
    });

    assert_eq!(item(&items, "topbar.power").text, "BAT --");
    assert_eq!(item(&items, "topbar.network").text, "NET !");
    assert_eq!(item(&items, "topbar.network").color, TextColor::Error);
    assert_eq!(item(&items, "topbar.audio").text, "VOL 42%~");
}

#[test]
fn a_live_privacy_indicator_takes_the_capsule_anchor() {
    let items = trailing_items(&TopBarSnapshot {
        activity: ProviderState::Available {
            value: vec![ActivityIndicator::Microphone, ActivityIndicator::Camera],
            stale: false,
        },
        ..snapshot()
    });

    let capsule = item(&items, "topbar.live-capsule");
    assert_eq!(capsule.zone, TopBarZone::LiveCapsule);
    assert_eq!(capsule.text, "MIC CAM");
    assert!(capsule.label.contains("Microphone"));
    assert_eq!(items[0].id, "topbar.live-capsule");
}

#[test]
fn healthy_providers_read_as_their_values() {
    let items = trailing_items(&snapshot());
    assert!(items.iter().all(|item| item.id != "topbar.live-capsule"));
    assert_eq!(item(&items, "topbar.clock").text, "09:41");
    assert_eq!(item(&items, "topbar.power").text, "BAT 91%");
    assert_eq!(item(&items, "topbar.network").text, "NET 80%");
    assert_eq!(network_text(&NetworkStatus::Offline), "OFFLINE");
    assert_eq!(network_text(&NetworkStatus::Connecting), "NET ...");
    assert_eq!(mark_stale("VOL 5%".to_owned(), true), "VOL 5%~");
    assert_eq!(mark_stale("VOL 5%".to_owned(), false), "VOL 5%");
}

#[test]
fn the_bar_tree_labels_the_foreground_identity_and_exposes_status_as_buttons() {
    let mut items = vec![foreground_item(&Some(ForegroundApplication {
        app_id: "org.sol.files".into(),
        display_name: "Files".into(),
    }))];
    items.extend(trailing_items(&snapshot()));
    let tree = accessibility_tree(&items);
    assert_eq!(tree.id, "topbar-surface");
    assert_eq!(tree.label, "SOL Top Bar");
    assert_eq!(tree.value, None);
    assert_eq!(tree.children.len(), items.len());
    assert_eq!(tree.children[0].id, "topbar.foreground-app");
    assert_eq!(tree.children[0].role, SemanticRole::Group);
    assert_eq!(tree.children[0].value.as_deref(), Some("FILES"));
    for (node, item) in tree.children.iter().zip(&items).skip(1) {
        assert_eq!(node.role, SemanticRole::Button);
        assert_eq!(node.id, item.id);
        assert_eq!(node.label, item.label);
        assert_eq!(node.value.as_deref(), Some(item.text.as_str()));
        assert!(!node.state.focused);
    }
}

#[test]
fn the_bar_is_placed_across_the_top_edge_reserving_its_height() {
    let placement = topbar_placement(1920, 40);
    assert_eq!(placement.namespace, TOPBAR_NAMESPACE);
    assert_eq!(placement.layer, LayerShellLayer::Top);
    assert_eq!(placement.anchor, LayerAnchor::top_bar());
    assert_eq!(placement.size, (1920, 40));
    assert_eq!(placement.exclusive_zone, 40);
    assert_eq!(placement.keyboard, LayerKeyboard::NoFocus);
}
