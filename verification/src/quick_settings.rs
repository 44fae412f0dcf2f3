//! Quick Settings model.
//!
//! Audio and mute changes pass through the authorization service before they
//! reach the settings service; appearance and accessibility preferences go to
//! the settings service directly. Network and Bluetooth stay explicitly
//! unavailable until their own service APIs exist. The model decides which
//! request a key or a control makes; the shell performs it and hands back the
//! settings snapshot that resulted.

use vstd::prelude::*;
use crate::accessibility::{leaf_is, node_is, AccessibilityNode, AccessibilityState, SemanticRole};
use crate::seqs::lemma_cycle_step;
use crate::text::{decimal, push_decimal};
use crate::tokens::{panel_token_contract, panel_tokens, VisualTokenContract};
use crate::system::SystemAction;

verus! {

/// How far one arrow key moves the output volume, in percent.
pub const VOLUME_STEP: u8 = 5;

/// The loudest output volume, in percent.
pub const MAX_VOLUME: u8 = 100;

/// Capability represented by a Quick Settings control.
#[derive(Debug, Clone, Copy, PartialEq, Eq, Structural)]
pub enum QuickSettingsCapability {
    /// Typed audio output settings.
    Audio,
    /// Typed appearance and accessibility settings.
    Appearance,
    /// Network status and controls.
    Network,
    /// Bluetooth status and controls.
    Bluetooth,
}

/// Availability surfaced honestly by the Quick Settings model.
#[derive(Debug, Clone, Copy, PartialEq, Eq)]
pub enum CapabilityState {
    /// A typed service API is available to this model.
    Available,
    /// No typed service API has been introduced for this system capability.
    Unavailable(&'static str),
}

/// A capability row with stable id, title, and availability state.
#[derive(Debug, Clone, Copy, PartialEq, Eq)]
pub struct CapabilityStatus {
    /// Capability modelled by this row.
    pub capability: QuickSettingsCapability,
    /// User-visible title.
    pub title: &'static str,
    /// Whether the row can dispatch a real typed operation.
    pub state: CapabilityState,
}

/// The row shown for a capability: `(title, reason it is unavailable)`.
pub open spec fn capability_row(capability: QuickSettingsCapability) -> (Seq<char>, Option<Seq<char>>) {
    match capability {
        QuickSettingsCapability::Audio => ("Audio"@, None),
        QuickSettingsCapability::Appearance => ("Appearance & accessibility"@, None),
        QuickSettingsCapability::Network => (
            "Network"@,
            Some(
                "Network controls are unavailable until a typed network service API is provided."@,
            ),
        ),
        QuickSettingsCapability::Bluetooth => (
            "Bluetooth"@,
            Some(
                "Bluetooth controls are unavailable until a typed Bluetooth service API is provided."@,
            ),
        ),
    }
}

/// Whether a status row says what [`capability_row`] says of its capability.
pub open spec fn describes(status: CapabilityStatus) -> bool {
    &&& status.title@ == capability_row(status.capability).0
    &&& match status.state {
        CapabilityState::Available => capability_row(status.capability).1 is None,
        CapabilityState::Unavailable(reason) => capability_row(status.capability).1 == Some(reason@),
    }
}

/// The status row of one capability.
pub fn capability_status(capability: QuickSettingsCapability) -> (status: CapabilityStatus)
    ensures
        status.capability == capability,
        describes(status),
{
    match capability {
        QuickSettingsCapability::Audio => CapabilityStatus {
            capability,
            title: "Audio",
            state: CapabilityState::Available,
        },
        QuickSettingsCapability::Appearance => CapabilityStatus {
            capability,
            title: "Appearance & accessibility",
            state: CapabilityState::Available,
        },
        QuickSettingsCapability::Network => CapabilityStatus {
            capability,
            title: "Network",
            state: CapabilityState::Unavailable(
                "Network controls are unavailable until a typed network service API is provided.",
            ),
        },
        QuickSettingsCapability::Bluetooth => CapabilityStatus {
            capability,
            title: "Bluetooth",
            state: CapabilityState::Unavailable(
                "Bluetooth controls are unavailable until a typed Bluetooth service API is provided.",
            ),
        },
    }
}

/// Quick Settings control receiving keyboard focus.
#[derive(Debug, Clone, Copy, PartialEq, Eq, Structural)]
pub enum QuickSettingsControl {
    /// Output volume percentage.
    Volume,
    /// Output mute toggle.
    Mute,
    /// Requested color scheme.
    ColorScheme,
    /// High contrast preference.
    HighContrast,
    /// Reduced motion preference.
    ReducedMotion,
    /// Named text scale preference.
    TextScale,
    /// Network capability state.
    Network,
    /// Bluetooth capability state.
    Bluetooth,
}

/// The controls in focus order.
pub open spec fn control_order() -> Seq<QuickSettingsControl> {
    seq![
        QuickSettingsControl::Volume,
        QuickSettingsControl::Mute,
        QuickSettingsControl::ColorScheme,
        QuickSettingsControl::HighContrast,
        QuickSettingsControl::ReducedMotion,
        QuickSettingsControl::TextScale,
        QuickSettingsControl::Network,
        QuickSettingsControl::Bluetooth,
    ]
}

/// Position of a control in focus order.
pub open spec fn control_index(control: QuickSettingsControl) -> int {
    match control {
        QuickSettingsControl::Volume => 0,
        QuickSettingsControl::Mute => 1,
        QuickSettingsControl::ColorScheme => 2,
        QuickSettingsControl::HighContrast => 3,
        QuickSettingsControl::ReducedMotion => 4,
        QuickSettingsControl::TextScale => 5,
        QuickSettingsControl::Network => 6,
        QuickSettingsControl::Bluetooth => 7,
    }
}

/// Accessible label of a control.
pub open spec fn control_label(control: QuickSettingsControl) -> Seq<char> {
    match control {
        QuickSettingsControl::Volume => "Volume"@,
        QuickSettingsControl::Mute => "Mute output"@,
        QuickSettingsControl::ColorScheme => "Color scheme"@,
        QuickSettingsControl::HighContrast => "High contrast"@,
        QuickSettingsControl::ReducedMotion => "Reduced motion"@,
        QuickSettingsControl::TextScale => "Text size"@,
        QuickSettingsControl::Network => "Network"@,
        QuickSettingsControl::Bluetooth => "Bluetooth"@,
    }
}

impl QuickSettingsControl {
    /// The controls in focus order.
    pub fn all() -> (controls: [QuickSettingsControl; 8])
        ensures
            controls@ == control_order(),
    {
        let controls = [
            QuickSettingsControl::Volume,
            QuickSettingsControl::Mute,
            QuickSettingsControl::ColorScheme,
            QuickSettingsControl::HighContrast,
            QuickSettingsControl::ReducedMotion,
            QuickSettingsControl::TextScale,
            QuickSettingsControl::Network,
            QuickSettingsControl::Bluetooth,
        ];
        proof {
            assert(controls@ =~= control_order());
        }
        controls
    }

    /// Accessible label of the control.
    pub fn label(self) -> (label: &'static str)
        ensures
            label@ == control_label(self),
    {
        match self {
            QuickSettingsControl::Volume => "Volume",
            QuickSettingsControl::Mute => "Mute output",
            QuickSettingsControl::ColorScheme => "Color scheme",
            QuickSettingsControl::HighContrast => "High contrast",
            QuickSettingsControl::ReducedMotion => "Reduced motion",
            QuickSettingsControl::TextScale => "Text size",
            QuickSettingsControl::Network => "Network",
            QuickSettingsControl::Bluetooth => "Bluetooth",
        }
    }
}

/// Normalized keyboard input for Quick Settings.
#[derive(Debug, Clone, Copy, PartialEq, Eq, Structural)]
pub enum QuickSettingsKey {
    /// Focus the prior Quick Settings control.
    ArrowUp,
    /// Focus the next Quick Settings control.
    ArrowDown,
    /// Decrease volume at the volume control.
    ArrowLeft,
    /// Increase volume at the volume control.
    ArrowRight,
    /// Toggle/cycle the focused capability.
    Enter,
    /// Clear Quick Settings keyboard focus.
    Escape,
}

/// Requested color scheme.
#[derive(Debug, Clone, Copy, PartialEq, Eq, Structural)]
pub enum ColorScheme {
    System,
    Light,
    Dark,
}

/// Named text scale.
#[derive(Debug, Clone, Copy, PartialEq, Eq, Structural)]
pub enum TextScale {
    Default,
    Large,
    ExtraLarge,
}

/// The scheme Enter cycles to: system, light, dark, and back.
pub open spec fn next_scheme_of(scheme: ColorScheme) -> ColorScheme {
    match scheme {
        ColorScheme::System => ColorScheme::Light,
        ColorScheme::Light => ColorScheme::Dark,
        ColorScheme::Dark => ColorScheme::System,
    }
}

/// The scheme Enter cycles to.
pub fn next_scheme(scheme: ColorScheme) -> (next: ColorScheme)
    ensures
        next == next_scheme_of(scheme),
{
    match scheme {
        ColorScheme::System => ColorScheme::Light,
        ColorScheme::Light => ColorScheme::Dark,
        ColorScheme::Dark => ColorScheme::System,
    }
}

/// The text scale Enter cycles to: default, large, extra large, and back.
pub open spec fn next_text_scale_of(scale: TextScale) -> TextScale {
    match scale {
        TextScale::Default => TextScale::Large,
        TextScale::Large => TextScale::ExtraLarge,
        TextScale::ExtraLarge => TextScale::Default,
    }
}

/// The text scale Enter cycles to.
pub fn next_text_scale(scale: TextScale) -> (next: TextScale)
    ensures
        next == next_text_scale_of(scale),
{
    match scale {
        TextScale::Default => TextScale::Large,
        TextScale::Large => TextScale::ExtraLarge,
        TextScale::ExtraLarge => TextScale::Default,
    }
}

/// A coherent settings snapshot, as the settings service reports it.
#[derive(Debug, Clone, Copy, PartialEq, Eq, Structural)]
pub struct SettingsSnapshot {
    pub output_volume: u8,
    pub output_muted: bool,
    pub color_scheme: ColorScheme,
    pub high_contrast: bool,
    pub reduced_motion: bool,
    pub text_scale: TextScale,
}

/// One typed settings change.
#[derive(Debug, Clone, Copy, PartialEq, Eq, Structural)]
pub enum SettingsChange {
    SetOutputVolume(u8),
    SetOutputMuted(bool),
    SetColorScheme(ColorScheme),
    SetHighContrast(bool),
    SetReducedMotion(bool),
    SetTextScale(TextScale),
}

/// What a Quick Settings operation asks the shell to do.
#[derive(Debug, Clone, PartialEq, Eq)]
pub enum QuickSettingsRequest {
    /// Authorize the action first; apply the change only if authorized.
    Authorize(SystemAction, SettingsChange),
    /// Apply a preference directly through the settings service.
    Apply(SettingsChange),
    /// The capability has no typed service backend yet.
    Unavailable(CapabilityStatus),
}

/// Result of keyboard handling.
#[derive(Debug, Clone, PartialEq, Eq)]
pub enum QuickSettingsKeyOutcome {
    /// Keyboard focus moved to a stable control.
    FocusChanged(QuickSettingsControl),
    /// A typed action or preference update is requested.
    Request(QuickSettingsRequest),
    /// Focus cleared.
    FocusCleared,
    /// Input cannot apply in the current focused control.
    Ignored,
}

/// The request that sets the output volume: an authorized change.
pub open spec fn volume_request(percent: u8) -> QuickSettingsRequest {
    QuickSettingsRequest::Authorize(
        SystemAction::SetOutputVolume { percent },
        SettingsChange::SetOutputVolume(percent),
    )
}

/// The request that sets output mute: an authorized change.
pub open spec fn mute_request(muted: bool) -> QuickSettingsRequest {
    QuickSettingsRequest::Authorize(
        SystemAction::SetOutputMuted { muted },
        SettingsChange::SetOutputMuted(muted),
    )
}

/// The volume one arrow key moves to: a step up, capped at the maximum, or a
/// step down, floored at zero.
pub open spec fn stepped_volume(current: u8, increase: bool) -> u8 {
    if increase {
        if current + VOLUME_STEP > MAX_VOLUME {
            MAX_VOLUME
        } else {
            (current + VOLUME_STEP) as u8
        }
    } else if current < VOLUME_STEP {
        0
    } else {
        (current - VOLUME_STEP) as u8
    }
}

/// Where focus moves from `focused`: to the previous or next control
/// cyclically, or to the last or first when nothing has focus.
pub open spec fn next_focus(focused: Option<QuickSettingsControl>, previous: bool) -> QuickSettingsControl {
    match focused {
        Some(control) => if previous {
            control_order()[(control_index(control) + 7) % 8]
        } else {
            control_order()[(control_index(control) + 1) % 8]
        },
        None => if previous {
            QuickSettingsControl::Bluetooth
        } else {
            QuickSettingsControl::Volume
        },
    }
}

/// What Enter on a focused control asks for, for the controls backed by a
/// service; `None` for Network and Bluetooth, which report themselves
/// unavailable.
pub open spec fn activation_request(control: QuickSettingsControl, snapshot: SettingsSnapshot) -> Option<
    QuickSettingsRequest,
> {
    match control {
        QuickSettingsControl::Volume => Some(
            volume_request(stepped_volume(snapshot.output_volume, true)),
        ),
        QuickSettingsControl::Mute => Some(mute_request(!snapshot.output_muted)),
        QuickSettingsControl::ColorScheme => Some(
            QuickSettingsRequest::Apply(
                SettingsChange::SetColorScheme(next_scheme_of(snapshot.color_scheme)),
            ),
        ),
        QuickSettingsControl::HighContrast => Some(
            QuickSettingsRequest::Apply(SettingsChange::SetHighContrast(!snapshot.high_contrast)),
        ),
        QuickSettingsControl::ReducedMotion => Some(
            QuickSettingsRequest::Apply(SettingsChange::SetReducedMotion(!snapshot.reduced_motion)),
        ),
        QuickSettingsControl::TextScale => Some(
            QuickSettingsRequest::Apply(
                SettingsChange::SetTextScale(next_text_scale_of(snapshot.text_scale)),
            ),
        ),
        _ => None,
    }
}

/// Whether `outcome` is what Enter on `control` gives: its request, or the
/// unavailable capability's own status row.
pub open spec fn activates(
    outcome: QuickSettingsKeyOutcome,
    control: QuickSettingsControl,
    snapshot: SettingsSnapshot,
) -> bool {
    match activation_request(control, snapshot) {
        Some(request) => outcome == QuickSettingsKeyOutcome::Request(request),
        None => outcome matches QuickSettingsKeyOutcome::Request(
            QuickSettingsRequest::Unavailable(status),
        ) && describes(status) && status.capability == if control == QuickSettingsControl::Network {
            QuickSettingsCapability::Network
        } else {
            QuickSettingsCapability::Bluetooth
        },
    }
}

/// Stable Quick Settings state.
#[derive(Debug, Clone, Copy, PartialEq, Eq, Structural)]
pub struct QuickSettings {
    snapshot: SettingsSnapshot,
    focused: Option<QuickSettingsControl>,
}

impl QuickSettings {
    /// The last coherent settings snapshot.
    pub closed spec fn snapshot_spec(&self) -> SettingsSnapshot {
        self.snapshot
    }

    /// The control with keyboard focus.
    pub closed spec fn focused_spec(&self) -> Option<QuickSettingsControl> {
        self.focused
    }

    /// Create the model from a coherent settings snapshot.
    pub fn new(snapshot: SettingsSnapshot) -> (quick: Self)
        ensures
            quick.snapshot_spec() == snapshot,
            quick.focused_spec() is None,
    {
        QuickSettings { snapshot, focused: None }
    }

    /// The last coherent settings snapshot.
    pub fn snapshot(&self) -> (snapshot: SettingsSnapshot)
        ensures
            snapshot == self.snapshot_spec(),
    {
        self.snapshot
    }

    /// The currently focused control.
    pub fn focused(&self) -> (focused: Option<QuickSettingsControl>)
        ensures
            focused == self.focused_spec(),
    {
        self.focused
    }

    /// Typed capability state, without assuming PipeWire, BlueZ, or a network
    /// daemon.
    pub fn capabilities(&self) -> (rows: [CapabilityStatus; 4])
        ensures
            rows@[0].capability == QuickSettingsCapability::Audio,
            rows@[1].capability == QuickSettingsCapability::Appearance,
            rows@[2].capability == QuickSettingsCapability::Network,
            rows@[3].capability == QuickSettingsCapability::Bluetooth,
            forall|i: int| 0 <= i < 4 ==> describes(#[trigger] rows@[i]),
    {
        let rows = [
            capability_status(QuickSettingsCapability::Audio),
            capability_status(QuickSettingsCapability::Appearance),
            capability_status(QuickSettingsCapability::Network),
            capability_status(QuickSettingsCapability::Bluetooth),
        ];
        proof {
            assert forall|i: int| 0 <= i < 4 implies describes(#[trigger] rows@[i]) by {
                if i == 0 {
                } else if i == 1 {
                } else if i == 2 {
                } else {
                }
            }
        }
        rows
    }

    /// Adopt the snapshot the settings service reported after a change or a
    /// refresh.
    pub fn refresh(&mut self, snapshot: SettingsSnapshot)
        ensures
            final(self).snapshot_spec() == snapshot,
            final(self).focused_spec() == old(self).focused_spec(),
    {
        self.snapshot = snapshot;
    }

    /// Request a permission-aware output-volume change.
    pub fn set_volume(&self, percent: u8) -> (request: QuickSettingsRequest)
        ensures
            request == volume_request(percent),
    {
        QuickSettingsRequest::Authorize(
            SystemAction::SetOutputVolume { percent },
            SettingsChange::SetOutputVolume(percent),
        )
    }

    /// Request a permission-aware mute change.
    pub fn set_muted(&self, muted: bool) -> (request: QuickSettingsRequest)
        ensures
            request == mute_request(muted),
    {
        QuickSettingsRequest::Authorize(
            SystemAction::SetOutputMuted { muted },
            SettingsChange::SetOutputMuted(muted),
        )
    }

    /// Apply an appearance preference through the settings boundary.
    pub fn set_color_scheme(&self, scheme: ColorScheme) -> (request: QuickSettingsRequest)
        ensures
            request == QuickSettingsRequest::Apply(SettingsChange::SetColorScheme(scheme)),
    {
        QuickSettingsRequest::Apply(SettingsChange::SetColorScheme(scheme))
    }

    /// Apply the high-contrast preference through the settings boundary.
    pub fn set_high_contrast(&self, enabled: bool) -> (request: QuickSettingsRequest)
        ensures
            request == QuickSettingsRequest::Apply(SettingsChange::SetHighContrast(enabled)),
    {
        QuickSettingsRequest::Apply(SettingsChange::SetHighContrast(enabled))
    }

    /// Apply the reduced-motion preference through the settings boundary.
    pub fn set_reduced_motion(&self, enabled: bool) -> (request: QuickSettingsRequest)
        ensures
            request == QuickSettingsRequest::Apply(SettingsChange::SetReducedMotion(enabled)),
    {
        QuickSettingsRequest::Apply(SettingsChange::SetReducedMotion(enabled))
    }

    /// Apply a named text scale through the settings boundary.
    pub fn set_text_scale(&self, scale: TextScale) -> (request: QuickSettingsRequest)
        ensures
            request == QuickSettingsRequest::Apply(SettingsChange::SetTextScale(scale)),
    {
        QuickSettingsRequest::Apply(SettingsChange::SetTextScale(scale))
    }

    fn move_focus(&mut self, previous: bool) -> (outcome: QuickSettingsKeyOutcome)
        ensures
            final(self).snapshot_spec() == old(self).snapshot_spec(),
            final(self).focused_spec() == Some(next_focus(old(self).focused_spec(), previous)),
            outcome == QuickSettingsKeyOutcome::FocusChanged(
                next_focus(old(self).focused_spec(), previous),
            ),
    {
        let controls = QuickSettingsControl::all();
        let index: usize = match self.focused {
            Some(control) => {
                let mut i: usize = 0;
                while i < 8 && controls[i] != control
                    invariant
                        i <= 8,
                        controls@ == control_order(),
                        forall|j: int| 0 <= j < i ==> controls@[j] != control,
                    decreases 8 - i,
                {
                    i = i + 1;
                }
                proof {
                    if i == 8 {
                        assert(controls@[control_index(control)] == control);
                    }
                    assert(i as int == control_index(control));
                    lemma_cycle_step(i as int, 8);
                }
                if previous {
                    if i == 0 {
                        7
                    } else {
                        i - 1
                    }
                } else if i == 7 {
                    0
                } else {
                    i + 1
                }
            },
            None => if previous {
                7
            } else {
                0
            },
        };
        let control = controls[index];
        self.focused = Some(control);
        QuickSettingsKeyOutcome::FocusChanged(control)
    }

    /// Handle normalized keyboard input: arrows up and down move focus
    /// cyclically, Escape clears it, left and right step the volume while the
    /// volume control has focus, and Enter activates the focused control.
    pub fn handle_key(&mut self, key: QuickSettingsKey) -> (outcome: QuickSettingsKeyOutcome)
        ensures
            final(self).snapshot_spec() == old(self).snapshot_spec(),
            final(self).focused_spec() == match key {
                QuickSettingsKey::ArrowUp => Some(next_focus(old(self).focused_spec(), true)),
                QuickSettingsKey::ArrowDown => Some(next_focus(old(self).focused_spec(), false)),
                QuickSettingsKey::Escape => None,
                _ => old(self).focused_spec(),
            },
            outcome == match key {
                QuickSettingsKey::ArrowUp => QuickSettingsKeyOutcome::FocusChanged(
                    next_focus(old(self).focused_spec(), true),
                ),
                QuickSettingsKey::ArrowDown => QuickSettingsKeyOutcome::FocusChanged(
                    next_focus(old(self).focused_spec(), false),
                ),
                QuickSettingsKey::Escape => QuickSettingsKeyOutcome::FocusCleared,
                QuickSettingsKey::ArrowLeft => if old(self).focused_spec() == Some(
                    QuickSettingsControl::Volume,
                ) {
                    QuickSettingsKeyOutcome::Request(
                        volume_request(stepped_volume(old(self).snapshot_spec().output_volume, false)),
                    )
                } else {
                    QuickSettingsKeyOutcome::Ignored
                },
                QuickSettingsKey::ArrowRight => if old(self).focused_spec() == Some(
                    QuickSettingsControl::Volume,
                ) {
                    QuickSettingsKeyOutcome::Request(
                        volume_request(stepped_volume(old(self).snapshot_spec().output_volume, true)),
                    )
                } else {
                    QuickSettingsKeyOutcome::Ignored
                },
                QuickSettingsKey::Enter => outcome,
            },
            key == QuickSettingsKey::Enter ==> match old(self).focused_spec() {
                Some(control) => activates(outcome, control, old(self).snapshot_spec()),
                None => outcome == QuickSettingsKeyOutcome::Ignored,
            },
    {
        match key {
            QuickSettingsKey::ArrowUp => self.move_focus(true),
            QuickSettingsKey::ArrowDown => self.move_focus(false),
            QuickSettingsKey::Escape => {
                self.focused = None;
                QuickSettingsKeyOutcome::FocusCleared
            },
            QuickSettingsKey::ArrowLeft => self.adjust_volume(false),
            QuickSettingsKey::ArrowRight => self.adjust_volume(true),
            QuickSettingsKey::Enter => self.activate_focused(),
        }
    }

    fn adjust_volume(&self, increase: bool) -> (outcome: QuickSettingsKeyOutcome)
        ensures
            outcome == if self.focused_spec() == Some(QuickSettingsControl::Volume) {
                QuickSettingsKeyOutcome::Request(
                    volume_request(stepped_volume(self.snapshot_spec().output_volume, increase)),
                )
            } else {
                QuickSettingsKeyOutcome::Ignored
            },
    {
        if self.focused != Some(QuickSettingsControl::Volume) {
            return QuickSettingsKeyOutcome::Ignored;
        }
        let current = self.snapshot.output_volume;
        let next = if increase {
            if current > MAX_VOLUME - VOLUME_STEP {
                MAX_VOLUME
            } else {
                current + VOLUME_STEP
            }
        } else if current < VOLUME_STEP {
            0
        } else {
            current - VOLUME_STEP
        };
        QuickSettingsKeyOutcome::Request(self.set_volume(next))
    }

    fn activate_focused(&self) -> (outcome: QuickSettingsKeyOutcome)
        ensures
            match self.focused_spec() {
                Some(control) => activates(outcome, control, self.snapshot_spec()),
                None => outcome == QuickSettingsKeyOutcome::Ignored,
            },
    {
        let control = match self.focused {
            Some(control) => control,
            None => return QuickSettingsKeyOutcome::Ignored,
        };
        let request = match control {
            QuickSettingsControl::Volume => {
                return self.adjust_volume(true);
            },
            QuickSettingsControl::Mute => self.set_muted(!self.snapshot.output_muted),
            QuickSettingsControl::ColorScheme => self.set_color_scheme(
                next_scheme(self.snapshot.color_scheme),
            ),
            QuickSettingsControl::HighContrast => self.set_high_contrast(!self.snapshot.high_contrast),
            QuickSettingsControl::ReducedMotion => self.set_reduced_motion(
                !self.snapshot.reduced_motion,
            ),
            QuickSettingsControl::TextScale => self.set_text_scale(
                next_text_scale(self.snapshot.text_scale),
            ),
            QuickSettingsControl::Network => QuickSettingsRequest::Unavailable(
                capability_status(QuickSettingsCapability::Network),
            ),
            QuickSettingsControl::Bluetooth => QuickSettingsRequest::Unavailable(
                capability_status(QuickSettingsCapability::Bluetooth),
            ),
        };
        QuickSettingsKeyOutcome::Request(request)
    }
}

/// Moving focus down and then up (or up and then down) returns it to the
/// control it started on.
pub proof fn lemma_focus_steps_undo(control: QuickSettingsControl)
    ensures
        next_focus(Some(next_focus(Some(control), false)), true) == control,
        next_focus(Some(next_focus(Some(control), true)), false) == control,
{
    match control {
        QuickSettingsControl::Volume => {},
        QuickSettingsControl::Mute => {},
        QuickSettingsControl::ColorScheme => {},
        QuickSettingsControl::HighContrast => {},
        QuickSettingsControl::ReducedMotion => {},
        QuickSettingsControl::TextScale => {},
        QuickSettingsControl::Network => {},
        QuickSettingsControl::Bluetooth => {},
    }
}

/// The name a control is identified by.
pub open spec fn control_name(control: QuickSettingsControl) -> Seq<char> {
    match control {
        QuickSettingsControl::Volume => "Volume"@,
        QuickSettingsControl::Mute => "Mute"@,
        QuickSettingsControl::ColorScheme => "ColorScheme"@,
        QuickSettingsControl::HighContrast => "HighContrast"@,
        QuickSettingsControl::ReducedMotion => "ReducedMotion"@,
        QuickSettingsControl::TextScale => "TextScale"@,
        QuickSettingsControl::Network => "Network"@,
        QuickSettingsControl::Bluetooth => "Bluetooth"@,
    }
}

/// The name a control is identified by.
pub fn control_name_text(control: QuickSettingsControl) -> (name: &'static str)
    ensures
        name@ == control_name(control),
{
    match control {
        QuickSettingsControl::Volume => "Volume",
        QuickSettingsControl::Mute => "Mute",
        QuickSettingsControl::ColorScheme => "ColorScheme",
        QuickSettingsControl::HighContrast => "HighContrast",
        QuickSettingsControl::ReducedMotion => "ReducedMotion",
        QuickSettingsControl::TextScale => "TextScale",
        QuickSettingsControl::Network => "Network",
        QuickSettingsControl::Bluetooth => "Bluetooth",
    }
}

/// The settings name of a color scheme.
pub open spec fn scheme_name(scheme: ColorScheme) -> Seq<char> {
    match scheme {
        ColorScheme::System => "system"@,
        ColorScheme::Light => "light"@,
        ColorScheme::Dark => "dark"@,
    }
}

/// The settings name of a text scale.
pub open spec fn scale_name(scale: TextScale) -> Seq<char> {
    match scale {
        TextScale::Default => "default"@,
        TextScale::Large => "large"@,
        TextScale::ExtraLarge => "extra-large"@,
    }
}

/// The spelling of a flag.
pub open spec fn flag_text(flag: bool) -> Seq<char> {
    if flag {
        "true"@
    } else {
        "false"@
    }
}

impl ColorScheme {
    /// The settings name of the scheme.
    pub fn as_str(self) -> (name: &'static str)
        ensures
            name@ == scheme_name(self),
    {
        match self {
            ColorScheme::System => "system",
            ColorScheme::Light => "light",
            ColorScheme::Dark => "dark",
        }
    }
}

impl TextScale {
    /// The settings name of the scale.
    pub fn as_str(self) -> (name: &'static str)
        ensures
            name@ == scale_name(self),
    {
        match self {
            TextScale::Default => "default",
            TextScale::Large => "large",
            TextScale::ExtraLarge => "extra-large",
        }
    }
}

fn flag_str(flag: bool) -> (text: &'static str)
    ensures
        text@ == flag_text(flag),
{
    if flag {
        "true"
    } else {
        "false"
    }
}

/// The value a control reports for a snapshot.
pub open spec fn control_value(control: QuickSettingsControl, snapshot: SettingsSnapshot) -> Seq<char> {
    match control {
        QuickSettingsControl::Volume => decimal(snapshot.output_volume as nat) + "%"@,
        QuickSettingsControl::Mute => flag_text(snapshot.output_muted),
        QuickSettingsControl::ColorScheme => scheme_name(snapshot.color_scheme),
        QuickSettingsControl::HighContrast => flag_text(snapshot.high_contrast),
        QuickSettingsControl::ReducedMotion => flag_text(snapshot.reduced_motion),
        QuickSettingsControl::TextScale => scale_name(snapshot.text_scale),
        QuickSettingsControl::Network | QuickSettingsControl::Bluetooth => "unavailable"@,
    }
}

/// Whether a control reports itself selected: the toggles that are on.
pub open spec fn control_selected(control: QuickSettingsControl, snapshot: SettingsSnapshot) -> bool {
    match control {
        QuickSettingsControl::Mute => snapshot.output_muted,
        QuickSettingsControl::HighContrast => snapshot.high_contrast,
        QuickSettingsControl::ReducedMotion => snapshot.reduced_motion,
        _ => false,
    }
}

/// The node of one control.
pub open spec fn control_node_is(
    node: AccessibilityNode,
    control: QuickSettingsControl,
    snapshot: SettingsSnapshot,
    focused: Option<QuickSettingsControl>,
) -> bool {
    leaf_is(
        node,
        "quick-settings-"@ + control_name(control),
        SemanticRole::Button,
        control_label(control),
        Some(control_value(control, snapshot)),
        AccessibilityState {
            focused: focused == Some(control),
            selected: control_selected(control, snapshot),
            disabled: control == QuickSettingsControl::Network || control == QuickSettingsControl::Bluetooth,
            editable: false,
        },
    )
}

fn value_of(control: QuickSettingsControl, snapshot: &SettingsSnapshot) -> (value: String)
    ensures
        value@ == control_value(control, *snapshot),
{
    match control {
        QuickSettingsControl::Volume => {
            let mut value = String::new();
            push_decimal(&mut value, snapshot.output_volume as u64);
            value.append("%");
            value
        },
        QuickSettingsControl::Mute => String::from_str(flag_str(snapshot.output_muted)),
        QuickSettingsControl::ColorScheme => String::from_str(snapshot.color_scheme.as_str()),
        QuickSettingsControl::HighContrast => String::from_str(flag_str(snapshot.high_contrast)),
        QuickSettingsControl::ReducedMotion => String::from_str(flag_str(snapshot.reduced_motion)),
        QuickSettingsControl::TextScale => String::from_str(snapshot.text_scale.as_str()),
        QuickSettingsControl::Network | QuickSettingsControl::Bluetooth => String::from_str("unavailable"),
    }
}

impl QuickSettings {
    /// The token roles the panel is drawn with: a raised panel over body text
    /// that presents with panel motion.
    pub fn visual_tokens(&self) -> (tokens: VisualTokenContract)
        ensures
            tokens == panel_tokens(),
    {
        panel_token_contract()
    }

    /// The semantic tree exported to a platform accessibility bridge: the
    /// panel and one button per control in focus order.
    pub fn accessibility_tree(&self) -> (tree: AccessibilityNode)
        ensures
            node_is(
                tree,
                "quick-settings"@,
                SemanticRole::Group,
                "Quick Settings"@,
                None,
                crate::accessibility::plain_state(),
            ),
            tree.children@.len() == 8,
            forall|i: int|
                0 <= i < 8 ==> control_node_is(
                    #[trigger] tree.children@[i],
                    control_order()[i],
                    self.snapshot_spec(),
                    self.focused_spec(),
                ),
    {
        let controls = QuickSettingsControl::all();
        let mut children: Vec<AccessibilityNode> = Vec::new();
        let mut i: usize = 0;
        while i < 8
            invariant
                i <= 8,
                controls@ == control_order(),
                children@.len() == i,
                forall|a: int|
                    0 <= a < i ==> control_node_is(
                        #[trigger] children@[a],
                        control_order()[a],
                        self.snapshot,
                        self.focused,
                    ),
            decreases 8 - i,
        {
            let control = controls[i];
            let mut id = String::from_str("quick-settings-");
            id.append(control_name_text(control));
            let focused = match self.focused {
                Some(f) => f == control,
                None => false,
            };
            let selected = match control {
                QuickSettingsControl::Mute => self.snapshot.output_muted,
                QuickSettingsControl::HighContrast => self.snapshot.high_contrast,
                QuickSettingsControl::ReducedMotion => self.snapshot.reduced_motion,
                _ => false,
            };
            let disabled = match control {
                QuickSettingsControl::Network | QuickSettingsControl::Bluetooth => true,
                _ => false,
            };
            children.push(
                AccessibilityNode {
                    id,
                    role: SemanticRole::Button,
                    label: String::from_str(control.label()),
                    value: Some(value_of(control, &self.snapshot)),
                    state: AccessibilityState { focused, selected, disabled, editable: false },
                    children: Vec::new(),
                },
            );
            i = i + 1;
        }
        AccessibilityNode {
            id: String::from_str("quick-settings"),
            role: SemanticRole::Group,
            label: String::from_str("Quick Settings"),
            value: None,
            state: AccessibilityState::default(),
            children,
        }
    }
}

} // verus!
