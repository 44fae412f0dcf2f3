use sol_shell::networkmanager::{
    check_primary_connection, global_state_status, map_connected_state, validate_name,
    signal_step, wireless_signal_percent, SignalStep, DEVICE_TYPE_WIFI, ACTIVE_ACTIVATED, ACTIVE_ACTIVATING, ACTIVE_DEACTIVATED,
    ACTIVE_DEACTIVATING, NM_STATE_ASLEEP, NM_STATE_CONNECTED_GLOBAL, NM_STATE_CONNECTED_LOCAL,
    NM_STATE_CONNECTING, NM_STATE_DISCONNECTED, NM_STATE_DISCONNECTING,
};
use sol_shell::topbar::{NetworkStatus, ProviderState};

#[test]
fn global_states_map_without_fabricating_connection_data() {
    assert_eq!(
        global_state_status(NM_STATE_DISCONNECTED).unwrap(),
        Some(NetworkStatus::Offline)
    );
    assert_eq!(
        global_state_status(NM_STATE_CONNECTING).unwrap(),
        Some(NetworkStatus::Connecting)
    );
    assert_eq!(global_state_status(NM_STATE_CONNECTED_GLOBAL).unwrap(), None);
}

#[test]
fn active_states_validate_connected_snapshot() {
    assert_eq!(
        map_connected_state(ACTIVE_ACTIVATED, "Home".to_owned(), 82)
            .expect("activated connection should map"),
        ProviderState::Available {
            value: NetworkStatus::Connected {
                name: "Home".to_owned(),
                signal_percent: 82,
            },
            stale: false,
        }
    );
    assert_eq!(
        map_connected_state(ACTIVE_ACTIVATING, "Home".to_owned(), 82)
            .expect("activating connection should map"),
        ProviderState::Available {
            value: NetworkStatus::Connecting,
            stale: false,
        }
    );
    assert!(map_connected_state(99, "Home".to_owned(), 82).is_err());
}

#[test]
fn invalid_connection_names_are_rejected() {
    assert!(validate_name("").is_err());
    assert!(validate_name("bad\nname").is_err());
    assert!(validate_name(&"x".repeat(513)).is_err());
}

#[test]
fn every_global_state_has_its_documented_meaning() {
    assert_eq!(global_state_status(NM_STATE_ASLEEP).unwrap(), Some(NetworkStatus::Offline));
    assert_eq!(global_state_status(NM_STATE_DISCONNECTING).unwrap(), Some(NetworkStatus::Connecting));
    assert_eq!(global_state_status(NM_STATE_CONNECTED_LOCAL).unwrap(), None);
    let error = global_state_status(15).unwrap_err();
    assert_eq!(error.0, "unsupported NetworkManager global state: 15");
}

#[test]
fn settled_active_states_map_to_connecting_and_offline() {
    assert_eq!(
        map_connected_state(ACTIVE_DEACTIVATING, "Home".to_owned(), 82).unwrap(),
        ProviderState::Available { value: NetworkStatus::Connecting, stale: false }
    );
    assert_eq!(
        map_connected_state(ACTIVE_DEACTIVATED, "Home".to_owned(), 82).unwrap(),
        ProviderState::Available { value: NetworkStatus::Offline, stale: false }
    );
    assert_eq!(
        map_connected_state(99, "Home".to_owned(), 82).unwrap_err().0,
        "unsupported NetworkManager active state: 99"
    );
}

#[test]
fn the_null_primary_connection_is_rejected() {
    assert!(check_primary_connection("/").is_err());
    assert!(check_primary_connection("/org/freedesktop/NetworkManager/ActiveConnection/1").is_ok());
}

#[test]
fn wireless_strength_is_bounded_to_a_percentage() {
    assert_eq!(wireless_signal_percent(0).unwrap(), 0);
    assert_eq!(wireless_signal_percent(100).unwrap(), 100);
    assert_eq!(
        wireless_signal_percent(101).unwrap_err().0,
        "NetworkManager wireless strength is outside 0..=100: 101"
    );
}

#[test]
fn names_at_the_length_limit_are_accepted() {
    assert!(validate_name(&"x".repeat(512)).is_ok());
    assert!(validate_name("Home Wi-Fi").is_ok());
}

#[test]
fn the_first_wifi_device_decides_the_signal() {
    assert_eq!(signal_step(DEVICE_TYPE_WIFI), SignalStep::ReadStrength);
    assert_eq!(signal_step(1), SignalStep::NextDevice);
    assert_eq!(
        wireless_signal_percent(101)
            .unwrap_err()
            .0,
        "NetworkManager wireless strength is outside 0..=100: 101"
    );
    assert_eq!(wireless_signal_percent(64).unwrap(), 64);
}
