use sol_shell::system_status::{
    civil_from_days, clock_from_reading, format_utc, poll_due, StatusCache, SystemClockProvider,
    SYSTEM_POLL_INTERVAL_MS,
};
use sol_shell::topbar::{
    AudioStatus, ClockProvider, NetworkStatus, PowerStatus, ProviderState,
};

#[test]
fn a_known_timestamp_formats_as_its_utc_date_and_time() {
    // 2026-08-28T09:41:07Z
    let status = format_utc(1_787_910_067);
    assert_eq!(status.date, "2026-08-28");
    assert_eq!(status.time, "09:41Z");
}

#[test]
fn the_epoch_itself_formats_correctly() {
    let status = format_utc(0);
    assert_eq!(status.date, "1970-01-01");
    assert_eq!(status.time, "00:00Z");
}

#[test]
fn a_leap_day_is_not_off_by_one() {
    // 2024-02-29T23:59:00Z
    let status = format_utc(1_709_251_140);
    assert_eq!(status.date, "2024-02-29");
    assert_eq!(status.time, "23:59Z");
}

#[test]
fn a_century_that_is_not_a_leap_year_is_handled() {
    let status = format_utc(4_107_542_400);
    assert_eq!(status.date, "2100-03-01");
}

#[test]
fn the_clock_reports_a_value_rather_than_an_error_on_a_sane_host() {
    assert!(matches!(
        SystemClockProvider.clock(),
        ProviderState::Available { .. }
    ));
}

#[test]
fn every_minute_of_a_day_round_trips_through_the_formatter() {
    for minute in 0..1_440_u64 {
        let status = format_utc(minute * 60);
        let expected = format!("{:02}:{:02}Z", minute / 60, minute % 60);
        assert_eq!(status.time, expected);
        assert_eq!(status.date, "1970-01-01");
    }
}

#[test]
fn day_numbers_name_their_calendar_dates() {
    assert_eq!(civil_from_days(0), (1970, 1, 1));
    assert_eq!(civil_from_days(31), (1970, 2, 1));
    assert_eq!(civil_from_days(365), (1971, 1, 1));
    // 2000 is a leap year: its 29th of February exists.
    assert_eq!(civil_from_days(11_016), (2000, 2, 29));
    assert_eq!(civil_from_days(11_017), (2000, 3, 1));
    // 146 097 days are exactly four centuries.
    assert_eq!(civil_from_days(146_097), (2370, 1, 1));
    // 2100 is not a leap year: the 28th of February is followed by March.
    assert_eq!(civil_from_days(47_540), (2100, 2, 28));
    assert_eq!(civil_from_days(47_541), (2100, 3, 1));
}

#[test]
fn days_before_the_epoch_name_earlier_dates() {
    assert_eq!(civil_from_days(-1), (1969, 12, 31));
    assert_eq!(civil_from_days(-365), (1969, 1, 1));
    assert_eq!(civil_from_days(-366), (1968, 12, 31));
    assert_eq!(civil_from_days(-146_097), (1570, 1, 1));
    assert_eq!(civil_from_days(-719_468), (0, 3, 1));
}

#[test]
fn the_last_second_of_a_year_rolls_into_the_next() {
    let status = format_utc(31_535_999);
    assert_eq!(status.date, "1970-12-31");
    assert_eq!(status.time, "23:59Z");
    assert_eq!(format_utc(31_536_000).date, "1971-01-01");
}

#[test]
fn a_year_past_four_digits_is_spelled_in_full() {
    let status = format_utc(u64::MAX);
    assert!(status.date.len() > "9999-12-31".len());
    assert!(status.time.ends_with('Z'));
}

#[test]
fn a_clock_before_the_epoch_is_an_error_not_a_value() {
    match clock_from_reading(Err("second time provided was later than self".to_owned())) {
        ProviderState::Error(message) => assert_eq!(
            message,
            "system clock is before the epoch: second time provided was later than self"
        ),
        other => panic!("expected an error, got {other:?}"),
    }
    match clock_from_reading(Ok(0)) {
        ProviderState::Available { value, stale } => {
            assert!(!stale);
            assert_eq!(value.date, "1970-01-01");
        }
        other => panic!("expected a value, got {other:?}"),
    }
}

#[test]
fn services_are_polled_no_more_often_than_their_interval() {
    assert!(poll_due(None));
    assert!(!poll_due(Some(0)));
    assert!(!poll_due(Some(SYSTEM_POLL_INTERVAL_MS - 1)));
    assert!(poll_due(Some(SYSTEM_POLL_INTERVAL_MS)));
}

#[test]
fn the_cache_reuses_services_and_reads_the_clock_each_time() {
    let mut cache = StatusCache::new();
    let first = cache.snapshot(ProviderState::Unavailable);
    assert_eq!(first.network, ProviderState::Unavailable);
    assert_eq!(first.audio, ProviderState::Unavailable);
    assert!(poll_due(None));
    cache.record(
        ProviderState::Available {
            value: NetworkStatus::Connected {
                name: "Home".into(),
                signal_percent: 70,
            },
            stale: false,
        },
        ProviderState::Available {
            value: AudioStatus {
                volume_percent: 30,
                muted: false,
            },
            stale: false,
        },
        ProviderState::Error("UPower unreachable".into()),
    );
    assert!(!poll_due(Some(SYSTEM_POLL_INTERVAL_MS - 1)));
    assert!(poll_due(Some(SYSTEM_POLL_INTERVAL_MS)));
    let clock = ProviderState::Available {
        value: format_utc(60),
        stale: false,
    };
    let snapshot = cache.snapshot(clock.clone());
    assert_eq!(snapshot.clock, clock);
    assert_eq!(
        snapshot.network,
        ProviderState::Available {
            value: NetworkStatus::Connected {
                name: "Home".into(),
                signal_percent: 70
            },
            stale: false
        }
    );
    assert_eq!(snapshot.power, ProviderState::<PowerStatus>::Error("UPower unreachable".into()));
    assert_eq!(snapshot.workspace, ProviderState::Unavailable);
    assert_eq!(snapshot.activity, ProviderState::Unavailable);
}
