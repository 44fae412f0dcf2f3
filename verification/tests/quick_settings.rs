use sol_shell::tokens::Motion;
use sol_shell::quick_settings::{
    capability_status, next_scheme, next_text_scale, CapabilityState, CapabilityStatus,
    ColorScheme, QuickSettings, QuickSettingsCapability, QuickSettingsControl, QuickSettingsKey,
    QuickSettingsKeyOutcome, QuickSettingsRequest, SettingsChange, SettingsSnapshot, TextScale,
};
use sol_shell::system::SystemAction;

fn snapshot() -> SettingsSnapshot {
    SettingsSnapshot {
        output_volume: 50,
        output_muted: false,
        color_scheme: ColorScheme::System,
        high_contrast: false,
        reduced_motion: false,
        text_scale: TextScale::Default,
    }
}

/// What the settings service does with a change it accepted.
fn applied(mut snapshot: SettingsSnapshot, change: SettingsChange) -> SettingsSnapshot {
    match change {
        SettingsChange::SetColorScheme(value) => snapshot.color_scheme = value,
        SettingsChange::SetHighContrast(value) => snapshot.high_contrast = value,
        SettingsChange::SetReducedMotion(value) => snapshot.reduced_motion = value,
        SettingsChange::SetTextScale(value) => snapshot.text_scale = value,
        SettingsChange::SetOutputVolume(value) => snapshot.output_volume = value,
        SettingsChange::SetOutputMuted(value) => snapshot.output_muted = value,
    }
    snapshot
}

/// The shell's handling of a request under an allowing authorization.
fn allow(quick: &mut QuickSettings, request: QuickSettingsRequest) {
    let change = match request {
        QuickSettingsRequest::Authorize(_, change) | QuickSettingsRequest::Apply(change) => change,
        QuickSettingsRequest::Unavailable(status) => panic!("unavailable: {status:?}"),
    };
    let next = applied(quick.snapshot(), change);
    quick.refresh(next);
}

#[test]
fn quick_settings_round_trip_audio_appearance_and_accessibility() {
    let mut quick = QuickSettings::new(snapshot());
    let request = quick.set_volume(73);
    assert!(matches!(
        request,
        QuickSettingsRequest::Authorize(SystemAction::SetOutputVolume { percent: 73 }, _)
    ));
    allow(&mut quick, request);
    let request = quick.set_muted(true);
    allow(&mut quick, request);
    let request = quick.set_color_scheme(ColorScheme::Dark);
    allow(&mut quick, request);
    let request = quick.set_high_contrast(true);
    allow(&mut quick, request);
    let request = quick.set_reduced_motion(true);
    allow(&mut quick, request);
    let request = quick.set_text_scale(TextScale::Large);
    allow(&mut quick, request);
    assert_eq!(quick.snapshot().output_volume, 73);
    assert!(quick.snapshot().output_muted);
    assert_eq!(quick.snapshot().color_scheme, ColorScheme::Dark);
    assert!(quick.snapshot().high_contrast);
    assert!(quick.snapshot().reduced_motion);
    assert_eq!(quick.snapshot().text_scale, TextScale::Large);
    assert_eq!(quick.accessibility_tree().children.len(), 8);
    assert_eq!(quick.visual_tokens().motion, Motion::Panel);
}

#[test]
fn keyboard_controls_authorization_and_unavailable_capabilities_are_truthful() {
    let mut quick = QuickSettings::new(snapshot());
    assert_eq!(
        quick.handle_key(QuickSettingsKey::ArrowDown),
        QuickSettingsKeyOutcome::FocusChanged(QuickSettingsControl::Volume)
    );
    // The volume step is only requested; under a denying policy the shell
    // applies nothing and the snapshot stays as the service reported it.
    assert_eq!(
        quick.handle_key(QuickSettingsKey::ArrowRight),
        QuickSettingsKeyOutcome::Request(QuickSettingsRequest::Authorize(
            SystemAction::SetOutputVolume { percent: 55 },
            SettingsChange::SetOutputVolume(55)
        ))
    );
    assert_eq!(quick.snapshot().output_volume, 50);
    for _ in 0..7 {
        quick.handle_key(QuickSettingsKey::ArrowDown);
    }
    assert_eq!(quick.focused(), Some(QuickSettingsControl::Bluetooth));
    assert!(matches!(
        quick.handle_key(QuickSettingsKey::Enter),
        QuickSettingsKeyOutcome::Request(QuickSettingsRequest::Unavailable(CapabilityStatus {
            capability: QuickSettingsCapability::Bluetooth,
            ..
        }))
    ));
}

#[test]
fn volume_steps_are_clamped_at_both_ends() {
    let mut loud = snapshot();
    loud.output_volume = 98;
    let mut quick = QuickSettings::new(loud);
    quick.handle_key(QuickSettingsKey::ArrowDown);
    assert_eq!(
        quick.handle_key(QuickSettingsKey::ArrowRight),
        QuickSettingsKeyOutcome::Request(QuickSettingsRequest::Authorize(
            SystemAction::SetOutputVolume { percent: 100 },
            SettingsChange::SetOutputVolume(100)
        ))
    );
    let mut quiet = snapshot();
    quiet.output_volume = 3;
    quick.refresh(quiet);
    assert_eq!(
        quick.handle_key(QuickSettingsKey::ArrowLeft),
        QuickSettingsKeyOutcome::Request(QuickSettingsRequest::Authorize(
            SystemAction::SetOutputVolume { percent: 0 },
            SettingsChange::SetOutputVolume(0)
        ))
    );
}

#[test]
fn enter_cycles_preferences_and_escape_clears_focus() {
    let mut quick = QuickSettings::new(snapshot());
    assert_eq!(
        quick.handle_key(QuickSettingsKey::Enter),
        QuickSettingsKeyOutcome::Ignored
    );
    assert_eq!(
        quick.handle_key(QuickSettingsKey::ArrowUp),
        QuickSettingsKeyOutcome::FocusChanged(QuickSettingsControl::Bluetooth)
    );
    quick.handle_key(QuickSettingsKey::ArrowDown);
    quick.handle_key(QuickSettingsKey::ArrowDown);
    quick.handle_key(QuickSettingsKey::ArrowDown);
    assert_eq!(quick.focused(), Some(QuickSettingsControl::ColorScheme));
    assert_eq!(
        quick.handle_key(QuickSettingsKey::Enter),
        QuickSettingsKeyOutcome::Request(QuickSettingsRequest::Apply(
            SettingsChange::SetColorScheme(ColorScheme::Light)
        ))
    );
    assert_eq!(
        quick.handle_key(QuickSettingsKey::ArrowLeft),
        QuickSettingsKeyOutcome::Ignored
    );
    assert_eq!(
        quick.handle_key(QuickSettingsKey::Escape),
        QuickSettingsKeyOutcome::FocusCleared
    );
    assert_eq!(quick.focused(), None);
    assert_eq!(next_scheme(ColorScheme::Dark), ColorScheme::System);
    assert_eq!(next_text_scale(TextScale::ExtraLarge), TextScale::Default);
}

#[test]
fn capability_rows_describe_what_is_and_is_not_backed() {
    let quick = QuickSettings::new(snapshot());
    let rows = quick.capabilities();
    assert_eq!(rows[0].capability, QuickSettingsCapability::Audio);
    assert!(matches!(rows[0].state, CapabilityState::Available));
    assert!(matches!(rows[2].state, CapabilityState::Unavailable(_)));
    assert_eq!(
        capability_status(QuickSettingsCapability::Network).title,
        "Network"
    );
}

#[test]
fn the_accessibility_tree_reports_each_control_value_and_state() {
    let mut quick = QuickSettings::new(SettingsSnapshot {
        output_volume: 73,
        output_muted: true,
        color_scheme: ColorScheme::Dark,
        high_contrast: false,
        reduced_motion: true,
        text_scale: TextScale::ExtraLarge,
    });
    quick.handle_key(QuickSettingsKey::ArrowDown);
    let tree = quick.accessibility_tree();
    assert_eq!(tree.id, "quick-settings");
    assert_eq!(tree.label, "Quick Settings");
    assert_eq!(tree.value, None);
    let ids: Vec<&str> = tree.children.iter().map(|node| node.id.as_str()).collect();
    assert_eq!(
        ids,
        vec![
            "quick-settings-Volume",
            "quick-settings-Mute",
            "quick-settings-ColorScheme",
            "quick-settings-HighContrast",
            "quick-settings-ReducedMotion",
            "quick-settings-TextScale",
            "quick-settings-Network",
            "quick-settings-Bluetooth",
        ]
    );
    let values: Vec<&str> = tree
        .children
        .iter()
        .map(|node| node.value.as_deref().unwrap())
        .collect();
    assert_eq!(
        values,
        vec!["73%", "true", "dark", "false", "true", "extra-large", "unavailable", "unavailable"]
    );
    assert_eq!(tree.children[0].label, "Volume");
    assert!(tree.children[0].state.focused);
    assert!(!tree.children[1].state.focused);
    assert!(tree.children[1].state.selected);
    assert!(!tree.children[3].state.selected);
    assert!(tree.children[4].state.selected);
    assert!(!tree.children[5].state.disabled);
    assert!(tree.children[6].state.disabled && tree.children[7].state.disabled);
    assert_eq!(ColorScheme::System.as_str(), "system");
    assert_eq!(TextScale::Large.as_str(), "large");
}
