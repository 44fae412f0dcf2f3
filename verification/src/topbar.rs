//! Renderer-neutral SOL top bar and status-area model.
//!
//! Platform providers supply snapshots; they never leak NetworkManager,
//! PipeWire, UPower, BlueZ, compositor, or portal types into the shell model.

use vstd::prelude::*;
use crate::system::SystemAction;

verus! {

/// The fixed identity of the first-party settings application.
pub const SETTINGS_APP_ID: &'static str = "org.sol.settings";

/// A provider result exposed faithfully to rendering and accessibility layers.
#[derive(Debug, Clone, PartialEq, Eq)]
pub enum ProviderState<T> {
    /// A current or last-known snapshot. `stale` means it should be visually
    /// qualified rather than silently presented as current.
    Available { value: T, stale: bool },
    /// No platform adapter has been installed for this capability.
    Unavailable,
    /// An installed adapter failed; message is diagnostic, not a fabricated value.
    Error(String),
}

impl<T> ProviderState<T> {
    /// Return the data only when it is available (including safely retained stale data).
    pub fn value(&self) -> (value: Option<&T>)
        ensures
            match self {
                ProviderState::Available { value: v, .. } => value == Some(v),
                _ => value is None,
            },
    {
        match self {
            ProviderState::Available { value, .. } => Some(value),
            _ => None,
        }
    }

    /// Whether the state must be marked stale to the user.
    pub fn stale(&self) -> (stale: bool)
        ensures
            stale == (self matches ProviderState::Available { stale: true, .. }),
    {
        match self {
            ProviderState::Available { stale, .. } => *stale,
            _ => false,
        }
    }
}

/// Clock/date data supplied by a clock adapter.
#[derive(Debug, Clone, PartialEq, Eq)]
pub struct ClockStatus {
    pub time: String,
    pub date: String,
}

/// Compositor-provided workspace position.
#[derive(Debug, Clone, Copy, PartialEq, Eq, Structural)]
pub struct WorkspaceStatus {
    pub current: u8,
    pub total: u8,
}

/// Network summary, not a NetworkManager object.
#[derive(Debug, Clone, PartialEq, Eq)]
pub enum NetworkStatus {
    Offline,
    Connecting,
    Connected { name: String, signal_percent: u8 },
}

/// Audio summary, not a PipeWire object.
#[derive(Debug, Clone, Copy, PartialEq, Eq, Structural)]
pub struct AudioStatus {
    pub volume_percent: u8,
    pub muted: bool,
}

/// Power summary, not a UPower object.
#[derive(Debug, Clone, Copy, PartialEq, Eq, Structural)]
pub struct PowerStatus {
    pub percent: u8,
    pub charging: bool,
}

/// One local Bluetooth adapter, not a BlueZ object.
#[derive(Debug, Clone, PartialEq, Eq)]
pub struct BluetoothAdapterStatus {
    pub name: String,
    pub address: String,
    pub powered: bool,
    pub discovering: bool,
    pub device_count: u32,
}

/// One known Bluetooth device, not a BlueZ object.
#[derive(Debug, Clone, PartialEq, Eq)]
pub struct BluetoothDeviceStatus {
    pub name: String,
    pub address: String,
    pub connected: bool,
    pub paired: bool,
    pub trusted: bool,
    pub battery_percent: Option<u8>,
}

impl View for BluetoothAdapterStatus {
    type V = (Seq<char>, Seq<char>, bool, bool, u32);

    /// `(name, address, powered, discovering, device_count)`.
    open spec fn view(&self) -> Self::V {
        (self.name@, self.address@, self.powered, self.discovering, self.device_count)
    }
}

impl View for BluetoothDeviceStatus {
    type V = (Seq<char>, Seq<char>, bool, bool, bool, Option<u8>);

    /// `(name, address, connected, paired, trusted, battery_percent)`.
    open spec fn view(&self) -> Self::V {
        (self.name@, self.address@, self.connected, self.paired, self.trusted, self.battery_percent)
    }
}

/// Bluetooth summary: adapters and devices, each sorted by address.
#[derive(Debug, Clone, PartialEq, Eq)]
pub struct BluetoothStatus {
    pub adapters: Vec<BluetoothAdapterStatus>,
    pub devices: Vec<BluetoothDeviceStatus>,
}

/// Privacy/activity indicator that must be explicitly observed by a trusted adapter.
#[derive(Debug, Clone, Copy, PartialEq, Eq, Structural)]
pub enum ActivityIndicator {
    ScreenCapture,
    Microphone,
    Camera,
    RemoteControl,
}

/// Clock provider boundary.
pub trait ClockProvider {
    fn clock(&self) -> ProviderState<ClockStatus>;
}

/// Workspace position provider boundary.
pub trait WorkspaceProvider {
    fn workspace(&self) -> ProviderState<WorkspaceStatus>;
}

/// Network provider boundary.
pub trait NetworkProvider {
    fn network(&self) -> ProviderState<NetworkStatus>;
}

/// Audio provider boundary.
pub trait AudioProvider {
    fn audio(&self) -> ProviderState<AudioStatus>;
}

/// Power provider boundary.
pub trait PowerProvider {
    fn power(&self) -> ProviderState<PowerStatus>;
}

/// Privacy/activity provider boundary.
pub trait ActivityProvider {
    fn activity(&self) -> ProviderState<Vec<ActivityIndicator>>;
}

/// Bluetooth provider boundary.
pub trait BluetoothProvider {
    fn bluetooth(&self) -> ProviderState<BluetoothStatus>;
}

/// One complete top-bar snapshot pulled from platform provider boundaries.
#[derive(Debug, Clone, PartialEq, Eq)]
pub struct TopBarSnapshot {
    pub clock: ProviderState<ClockStatus>,
    pub workspace: ProviderState<WorkspaceStatus>,
    pub network: ProviderState<NetworkStatus>,
    pub audio: ProviderState<AudioStatus>,
    pub power: ProviderState<PowerStatus>,
    pub activity: ProviderState<Vec<ActivityIndicator>>,
}

/// Bundle of providers read into one snapshot.
pub struct TopBarProviders<C, W, N, A, P, I> {
    pub clock: C,
    pub workspace: W,
    pub network: N,
    pub audio: A,
    pub power: P,
    pub activity: I,
}

impl<
    C: ClockProvider,
    W: WorkspaceProvider,
    N: NetworkProvider,
    A: AudioProvider,
    P: PowerProvider,
    I: ActivityProvider,
> TopBarProviders<C, W, N, A, P, I> {
    /// Read every provider once, each into its own field.
    pub fn snapshot(&self) -> (snapshot: TopBarSnapshot)
        ensures
            call_ensures(C::clock, (&self.clock,), snapshot.clock),
            call_ensures(W::workspace, (&self.workspace,), snapshot.workspace),
            call_ensures(N::network, (&self.network,), snapshot.network),
            call_ensures(A::audio, (&self.audio,), snapshot.audio),
            call_ensures(P::power, (&self.power,), snapshot.power),
            call_ensures(I::activity, (&self.activity,), snapshot.activity),
    {
        TopBarSnapshot {
            clock: self.clock.clock(),
            workspace: self.workspace.workspace(),
            network: self.network.network(),
            audio: self.audio.audio(),
            power: self.power.power(),
            activity: self.activity.activity(),
        }
    }
}

/// Explicit interaction targets of the bar.
#[derive(Debug, Clone, Copy, PartialEq, Eq, Structural)]
pub enum TopBarControl {
    Network,
    Audio,
    Power,
    Privacy,
}

/// Whether the audio in a snapshot is reported muted (`false` when unknown).
pub open spec fn reported_muted(snapshot: TopBarSnapshot) -> bool {
    match snapshot.audio {
        ProviderState::Available { value, .. } => value.muted,
        _ => false,
    }
}

impl TopBarControl {
    /// Return the typed intent associated with activating this control: the
    /// audio control toggles the reported mute state (muting when audio is not
    /// reported); every other control opens Settings.
    pub fn action(self, snapshot: &TopBarSnapshot) -> (action: SystemAction)
        ensures
            self == TopBarControl::Audio ==> action == (SystemAction::SetOutputMuted {
                muted: !reported_muted(*snapshot),
            }),
            self != TopBarControl::Audio ==> (action matches SystemAction::LaunchApplication {
                app_id,
            } && app_id@ == SETTINGS_APP_ID@),
    {
        match self {
            TopBarControl::Audio => {
                let muted = match &snapshot.audio {
                    ProviderState::Available { value, .. } => value.muted,
                    _ => false,
                };
                SystemAction::SetOutputMuted { muted: !muted }
            },
            _ => SystemAction::LaunchApplication { app_id: String::from_str(SETTINGS_APP_ID) },
        }
    }

    /// Stable semantic identifier of the control.
    pub fn id(self) -> (id: &'static str)
        ensures
            id@ == match self {
                TopBarControl::Network => "network"@,
                TopBarControl::Audio => "audio"@,
                TopBarControl::Power => "power"@,
                TopBarControl::Privacy => "privacy"@,
            },
    {
        match self {
            TopBarControl::Network => "network",
            TopBarControl::Audio => "audio",
            TopBarControl::Power => "power",
            TopBarControl::Privacy => "privacy",
        }
    }

    /// Accessible name of the control.
    pub fn label(self) -> (label: &'static str)
        ensures
            label@ == match self {
                TopBarControl::Network => "Network status"@,
                TopBarControl::Audio => "Audio status"@,
                TopBarControl::Power => "Power status"@,
                TopBarControl::Privacy => "Privacy and activity status"@,
            },
    {
        match self {
            TopBarControl::Network => "Network status",
            TopBarControl::Audio => "Audio status",
            TopBarControl::Power => "Power status",
            TopBarControl::Privacy => "Privacy and activity status",
        }
    }
}

/// Permission result surfaced without falsely claiming a system change occurred.
#[derive(Debug, Clone, Copy, PartialEq, Eq, Structural)]
pub enum IntentOutcome {
    Authorized,
    AwaitingConsent,
    Denied,
}

/// Top-bar model failure.
#[derive(Debug, Clone, PartialEq, Eq)]
pub struct TopBarError(pub String);

/// The fixed caller identity for requests originating in SOL's trusted shell.
pub const SHELL_APP_ID: &'static str = "org.sol.shell";

/// What the authorization service answered to a bar control's intent.
#[derive(Debug, Clone, Copy, PartialEq, Eq, Structural)]
pub enum AuthorizationVerdict {
    Authorized,
    AwaitingUserConsent,
    Denied,
}

/// The typed intent a bar control submits for authorization:
/// `(caller, source, action)`.
#[derive(Debug, Clone, PartialEq, Eq)]
pub struct TopBarIntent {
    pub caller: String,
    pub source: crate::system::ActionSource,
    pub action: SystemAction,
}

/// Retained top-bar controller: the latest provider snapshot, and the intents
/// its controls submit. It never executes an intent; the authorization
/// service's verdict is reported back as what it is.
#[derive(Debug, Clone)]
pub struct TopBarModel {
    snapshot: TopBarSnapshot,
}

impl TopBarModel {
    /// The retained snapshot.
    pub closed spec fn snapshot_spec(&self) -> TopBarSnapshot {
        self.snapshot
    }

    /// Build an initial model from provider output.
    pub fn new(snapshot: TopBarSnapshot) -> (model: Self)
        ensures
            model.snapshot_spec() == snapshot,
    {
        TopBarModel { snapshot }
    }

    /// Replace the retained snapshot after polling or a provider event.
    pub fn refresh(&mut self, snapshot: TopBarSnapshot)
        ensures
            final(self).snapshot_spec() == snapshot,
    {
        self.snapshot = snapshot;
    }

    /// The retained snapshot.
    pub fn snapshot(&self) -> (snapshot: &TopBarSnapshot)
        ensures
            *snapshot == self.snapshot_spec(),
    {
        &self.snapshot
    }

    /// The typed, caller-attributed intent a control submits.
    pub fn activation_intent(&self, control: TopBarControl) -> (intent: TopBarIntent)
        ensures
            intent.caller@ == SHELL_APP_ID@,
            intent.source == crate::system::ActionSource::QuickSettings,
            control == TopBarControl::Audio ==> intent.action == (SystemAction::SetOutputMuted {
                muted: !reported_muted(self.snapshot_spec()),
            }),
            control != TopBarControl::Audio ==> (intent.action matches SystemAction::LaunchApplication {
                app_id,
            } && app_id@ == SETTINGS_APP_ID@),
    {
        TopBarIntent {
            caller: String::from_str(SHELL_APP_ID),
            source: crate::system::ActionSource::QuickSettings,
            action: control.action(&self.snapshot),
        }
    }

    /// Report the authorization service's verdict without claiming that any
    /// system change occurred.
    pub fn outcome(verdict: Result<AuthorizationVerdict, String>) -> (result: Result<
        IntentOutcome,
        TopBarError,
    >)
        ensures
            match verdict {
                Ok(AuthorizationVerdict::Authorized) => result == Ok::<IntentOutcome, TopBarError>(
                    IntentOutcome::Authorized,
                ),
                Ok(AuthorizationVerdict::AwaitingUserConsent) => result == Ok::<
                    IntentOutcome,
                    TopBarError,
                >(IntentOutcome::AwaitingConsent),
                Ok(AuthorizationVerdict::Denied) => result == Ok::<IntentOutcome, TopBarError>(
                    IntentOutcome::Denied,
                ),
                Err(reason) => result == Err::<IntentOutcome, TopBarError>(TopBarError(reason)),
            },
    {
        match verdict {
            Ok(AuthorizationVerdict::Authorized) => Ok(IntentOutcome::Authorized),
            Ok(AuthorizationVerdict::AwaitingUserConsent) => Ok(IntentOutcome::AwaitingConsent),
            Ok(AuthorizationVerdict::Denied) => Ok(IntentOutcome::Denied),
            Err(reason) => Err(TopBarError(reason)),
        }
    }
}

} // verus!
