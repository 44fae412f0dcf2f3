use sol_shell::topbar::{PowerStatus, ProviderState};
use sol_shell::upower::{
    map_display_device, PercentageReading, STATE_CHARGING, STATE_DISCHARGING,
    STATE_FULLY_CHARGED, STATE_PENDING_CHARGE, STATE_UNKNOWN,
};

#[test]
fn absent_battery_is_unavailable_instead_of_zero_percent() {
    assert_eq!(
        map_display_device(false, PercentageReading::InRange(0), STATE_UNKNOWN)
            .expect("absence should be valid"),
        ProviderState::Unavailable
    );
}

#[test]
fn battery_percentage_and_charge_state_are_typed() {
    // 72.6 % rounds to 73, 41.2 % to 41.
    assert_eq!(
        map_display_device(true, PercentageReading::InRange(73), STATE_CHARGING)
            .expect("charging battery should map"),
        ProviderState::Available {
            value: PowerStatus {
                percent: 73,
                charging: true,
            },
            stale: false,
        }
    );
    assert_eq!(
        map_display_device(true, PercentageReading::InRange(41), STATE_DISCHARGING)
            .expect("discharging battery should map"),
        ProviderState::Available {
            value: PowerStatus {
                percent: 41,
                charging: false,
            },
            stale: false,
        }
    );
}

#[test]
fn invalid_or_unknown_device_data_is_rejected() {
    assert!(map_display_device(
        true,
        PercentageReading::OutOfRange("NaN".to_owned()),
        STATE_CHARGING
    )
    .is_err());
    assert!(map_display_device(
        true,
        PercentageReading::OutOfRange("101".to_owned()),
        STATE_CHARGING
    )
    .is_err());
    assert!(map_display_device(true, PercentageReading::InRange(50), STATE_UNKNOWN).is_err());
    assert!(map_display_device(true, PercentageReading::InRange(50), 99).is_err());
}

#[test]
fn each_failure_names_its_cause() {
    let error = map_display_device(
        true,
        PercentageReading::OutOfRange("101".to_owned()),
        STATE_CHARGING,
    )
    .unwrap_err();
    assert_eq!(error.message(), "UPower percentage is outside 0..=100: 101");
    let error = map_display_device(true, PercentageReading::InRange(150), STATE_CHARGING)
        .unwrap_err();
    assert_eq!(error.message(), "UPower percentage is outside 0..=100: 150");
    let error = map_display_device(true, PercentageReading::InRange(50), STATE_UNKNOWN)
        .unwrap_err();
    assert_eq!(error.message(), "UPower battery state is unknown");
    let error = map_display_device(true, PercentageReading::InRange(50), 99).unwrap_err();
    assert_eq!(error.message(), "unsupported UPower battery state 99");
}

#[test]
fn pending_charge_counts_as_charging_and_full_does_not() {
    let charging = |state| match map_display_device(true, PercentageReading::InRange(100), state) {
        Ok(ProviderState::Available { value, .. }) => value.charging,
        other => panic!("unexpected {other:?}"),
    };
    assert!(charging(STATE_PENDING_CHARGE));
    assert!(!charging(STATE_FULLY_CHARGED));
}
