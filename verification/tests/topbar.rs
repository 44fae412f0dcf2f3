use sol_shell::system::SystemAction;
use sol_shell::topbar::{
    ActivityIndicator, ActivityProvider, AudioProvider, AudioStatus, AuthorizationVerdict,
    ClockProvider, ClockStatus, IntentOutcome, NetworkProvider, NetworkStatus, PowerProvider,
    PowerStatus, ProviderState, TopBarControl, TopBarModel, TopBarProviders, TopBarSnapshot,
    WorkspaceProvider, WorkspaceStatus,
};

struct Fake<T: Clone>(ProviderState<T>);

impl ClockProvider for Fake<ClockStatus> {
    fn clock(&self) -> ProviderState<ClockStatus> {
        self.0.clone()
    }
}
impl WorkspaceProvider for Fake<WorkspaceStatus> {
    fn workspace(&self) -> ProviderState<WorkspaceStatus> {
        self.0.clone()
    }
}
impl NetworkProvider for Fake<NetworkStatus> {
    fn network(&self) -> ProviderState<NetworkStatus> {
        self.0.clone()
    }
}
impl AudioProvider for Fake<AudioStatus> {
    fn audio(&self) -> ProviderState<AudioStatus> {
        self.0.clone()
    }
}
impl PowerProvider for Fake<PowerStatus> {
    fn power(&self) -> ProviderState<PowerStatus> {
        self.0.clone()
    }
}
impl ActivityProvider for Fake<Vec<ActivityIndicator>> {
    fn activity(&self) -> ProviderState<Vec<ActivityIndicator>> {
        self.0.clone()
    }
}

fn snapshot() -> TopBarSnapshot {
    TopBarProviders {
        clock: Fake(ProviderState::Available {
            value: ClockStatus {
                time: "09:41".into(),
                date: "2026-08-16".into(),
            },
            stale: false,
        }),
        workspace: Fake(ProviderState::Available {
            value: WorkspaceStatus {
                current: 2,
                total: 4,
            },
            stale: false,
        }),
        network: Fake(ProviderState::Available {
            value: NetworkStatus::Connected {
                name: "SOLNet".into(),
                signal_percent: 80,
            },
            stale: true,
        }),
        audio: Fake(ProviderState::Available {
            value: AudioStatus {
                volume_percent: 42,
                muted: false,
            },
            stale: false,
        }),
        power: Fake(ProviderState::Unavailable),
        activity: Fake(ProviderState::Error("portal unavailable".into())),
    }
    .snapshot()
}

#[test]
fn provider_states_are_retained_without_fabricating_data() {
    let state = snapshot();
    assert_eq!(state.clock.value().unwrap().time, "09:41");
    assert!(state.network.stale());
    assert!(matches!(state.power, ProviderState::Unavailable));
    assert!(matches!(state.activity, ProviderState::Error(_)));
}

#[test]
fn controls_emit_typed_intents_but_default_deny_executes_nothing() {
    let model = TopBarModel::new(snapshot());
    assert!(matches!(
        TopBarControl::Audio.action(model.snapshot()),
        SystemAction::SetOutputMuted { muted: true }
    ));
    let intent = model.activation_intent(TopBarControl::Audio);
    assert_eq!(intent.caller, "org.sol.shell");
    assert_eq!(intent.action, SystemAction::SetOutputMuted { muted: true });
    // A default-deny authorization service answers every intent with a denial.
    assert_eq!(
        TopBarModel::outcome(Ok(AuthorizationVerdict::Denied)).unwrap(),
        IntentOutcome::Denied
    );
    assert!(matches!(
        TopBarControl::Network.action(model.snapshot()),
        SystemAction::LaunchApplication { .. }
    ));
}

#[test]
fn control_identities_and_labels_are_stable() {
    assert_eq!(TopBarControl::Network.id(), "network");
    assert_eq!(TopBarControl::Privacy.label(), "Privacy and activity status");
    match TopBarControl::Power.action(&snapshot()) {
        SystemAction::LaunchApplication { app_id } => assert_eq!(app_id, "org.sol.settings"),
        other => panic!("unexpected {other:?}"),
    }
}

#[test]
fn a_muted_output_is_unmuted_by_the_audio_control() {
    let mut state = snapshot();
    state.audio = ProviderState::Available {
        value: AudioStatus { volume_percent: 10, muted: true },
        stale: false,
    };
    assert_eq!(TopBarControl::Audio.action(&state), SystemAction::SetOutputMuted { muted: false });
    state.audio = ProviderState::Unavailable;
    assert_eq!(TopBarControl::Audio.action(&state), SystemAction::SetOutputMuted { muted: true });
}

#[test]
fn authorization_verdicts_are_reported_as_they_are() {
    assert_eq!(
        TopBarModel::outcome(Ok(AuthorizationVerdict::Authorized)).unwrap(),
        IntentOutcome::Authorized
    );
    assert_eq!(
        TopBarModel::outcome(Ok(AuthorizationVerdict::AwaitingUserConsent)).unwrap(),
        IntentOutcome::AwaitingConsent
    );
    assert_eq!(TopBarModel::outcome(Err("store offline".into())).unwrap_err().0, "store offline");
}
