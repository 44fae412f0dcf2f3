use sol_shell::pipewire_audio::{
    map_pactl_snapshot, parse_percentage, PactlInfo, PactlSink, PactlVolume,
    PipewireAudioProvider,
};
use sol_shell::topbar::{AudioStatus, ProviderState};

fn info() -> PactlInfo {
    PactlInfo {
        server_name: "PulseAudio (on PipeWire 1.6.8)".to_owned(),
        default_sink_name: Some("sol_output".to_owned()),
    }
}

fn volume(channel: &str, percent: &str) -> (String, PactlVolume) {
    (
        channel.to_owned(),
        PactlVolume {
            value_percent: percent.to_owned(),
        },
    )
}

fn sinks() -> Vec<PactlSink> {
    vec![PactlSink {
        name: "sol_output".to_owned(),
        driver: "PipeWire".to_owned(),
        mute: false,
        volume: vec![volume("front-left", "62%"), volume("front-right", "64%")],
    }]
}

#[test]
fn default_pipewire_sink_maps_to_typed_audio_status() {
    assert_eq!(
        map_pactl_snapshot(Ok(info()), Ok(sinks())).expect("valid PipeWire snapshot"),
        ProviderState::Available {
            value: AudioStatus {
                volume_percent: 63,
                muted: false,
            },
            stale: false,
        }
    );
}

#[test]
fn missing_default_sink_is_explicitly_unavailable() {
    let info = PactlInfo {
        server_name: "PulseAudio (on PipeWire 1.6.8)".to_owned(),
        default_sink_name: None,
    };
    assert_eq!(
        map_pactl_snapshot(Ok(info), Ok(Vec::new())).expect("missing sink should be valid"),
        ProviderState::Unavailable
    );
}

#[test]
fn malformed_or_non_pipewire_snapshots_are_rejected() {
    assert!(map_pactl_snapshot(Err("missing field `server_name`".to_owned()), Ok(sinks())).is_err());
    assert!(map_pactl_snapshot(
        Ok(PactlInfo {
            server_name: "PulseAudio".to_owned(),
            default_sink_name: Some("sol_output".to_owned()),
        }),
        Ok(sinks())
    )
    .is_err());
    assert!(map_pactl_snapshot(Ok(info()), Ok(Vec::new())).is_err());
    let mut loud = sinks();
    loud[0].volume[1].1.value_percent = "164%".to_owned();
    assert!(map_pactl_snapshot(Ok(info()), Ok(loud)).is_err());
}

#[test]
fn errors_name_their_cause() {
    let error = map_pactl_snapshot(
        Ok(PactlInfo {
            server_name: "PulseAudio".to_owned(),
            default_sink_name: Some("sol_output".to_owned()),
        }),
        Ok(sinks()),
    )
    .unwrap_err();
    assert_eq!(error.message(), "audio server is not PipeWire-backed: PulseAudio");
    let error = map_pactl_snapshot(Ok(info()), Ok(Vec::new())).unwrap_err();
    assert_eq!(error.message(), "default PipeWire sink is missing: sol_output");
    let mut foreign = sinks();
    foreign[0].driver = "ALSA".to_owned();
    let error = map_pactl_snapshot(Ok(info()), Ok(foreign)).unwrap_err();
    assert_eq!(error.message(), "default sink is not owned by PipeWire: ALSA");
    let mut silent = sinks();
    silent[0].volume.clear();
    let error = map_pactl_snapshot(Ok(info()), Ok(silent)).unwrap_err();
    assert_eq!(error.message(), "default PipeWire sink has no volume channels");
    let error = map_pactl_snapshot(Ok(info()), Err("expected value".to_owned())).unwrap_err();
    assert_eq!(error.message(), "parse pactl sinks JSON: expected value");
}

#[test]
fn percentages_are_whole_bounded_and_suffixed() {
    assert_eq!(parse_percentage("0%").unwrap(), 0);
    assert_eq!(parse_percentage("100%").unwrap(), 100);
    assert_eq!(
        parse_percentage("101%").unwrap_err().message(),
        "PipeWire volume exceeds the SOL 0..=100 contract: 101%"
    );
    assert_eq!(
        parse_percentage("62").unwrap_err().message(),
        "invalid PipeWire volume: 62"
    );
    assert!(parse_percentage("-1%").is_err());
    assert!(parse_percentage("%").is_err());
    assert!(parse_percentage("300%").is_err());
}

#[test]
fn a_muted_sink_reports_mute_with_its_mean_volume() {
    let mut muted = sinks();
    muted[0].mute = true;
    muted[0].volume.push(volume("rear", "10%"));
    assert_eq!(
        map_pactl_snapshot(Ok(info()), Ok(muted)).unwrap(),
        ProviderState::Available {
            value: AudioStatus {
                volume_percent: 45,
                muted: true,
            },
            stale: false,
        }
    );
}

#[test]
fn the_provider_remembers_its_pactl_path() {
    assert_eq!(PipewireAudioProvider::new("/usr/bin/pactl".to_owned()).pactl(), "/usr/bin/pactl");
    assert_eq!(PipewireAudioProvider::from_path().pactl(), "pactl");
}
