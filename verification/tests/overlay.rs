use sol_shell::overlay::{
    check_role_contract, role_defaults, ExclusiveZone, InputRegion, LayerShellLayer,
    OutputId, OverlayEntry, OverlayError, OverlayEscape, OverlayId, OverlayRole, OverlayStack,
};

fn main_output() -> OutputId {
    OutputId::new("main".to_owned())
}

/// A stack with the one output the fixtures open overlays on.
fn stack_on_main() -> OverlayStack {
    let mut stack = OverlayStack::new();
    stack.register_output(main_output()).unwrap();
    stack
}

fn entry(id: u64, role: OverlayRole) -> OverlayEntry {
    let (exclusive_zone, input_region, dismissible) = role_defaults(role);
    OverlayEntry {
        id: OverlayId(id),
        role,
        exclusive_zone,
        input_region,
        dismissible,
    }
}

#[test]
fn headless_compositor_solui_fixture_validates_popup_placement_scale_and_lifecycle() {
    let mut stack = stack_on_main();
    let popover = entry(7, OverlayRole::Popover);
    assert_eq!(OverlayRole::Popover.layer(), LayerShellLayer::Overlay);
    assert_eq!(popover.input_region, InputRegion::Interactive);
    stack.open(popover, &main_output()).unwrap();
    assert_eq!(stack.focused_overlay(), Some(OverlayId(7)));
    assert_eq!(stack.handle_escape(), OverlayEscape::Dismissed(OverlayId(7)));
    assert!(!stack.contains(OverlayId(7)));
    assert_eq!(stack.focused_overlay(), None);
}

#[test]
fn modal_scrim_has_semantic_projection_and_restores_underlying_focus() {
    let mut stack = stack_on_main();
    stack.open(entry(1, OverlayRole::Popover), &main_output()).unwrap();
    let modal = entry(2, OverlayRole::Modal);
    assert!(OverlayRole::Modal.has_scrim());
    assert!(!OverlayRole::Popover.has_scrim());
    stack.open(modal, &main_output()).unwrap();

    assert_eq!(stack.focused_overlay(), Some(OverlayId(2)));
    assert_eq!(stack.handle_escape(), OverlayEscape::Dismissed(OverlayId(2)));
    assert_eq!(stack.focused_overlay(), Some(OverlayId(1)));
}

#[test]
fn osd_is_pass_through_and_never_takes_keyboard_focus() {
    let mut stack = stack_on_main();
    stack.open(entry(1, OverlayRole::Popover), &main_output()).unwrap();
    let osd = entry(2, OverlayRole::Osd);
    stack.open(osd, &main_output()).unwrap();

    assert_eq!(osd.input_region, InputRegion::PassThrough);
    assert_eq!(osd.exclusive_zone, ExclusiveZone::NoReservation);
    assert_eq!(stack.focused_overlay(), Some(OverlayId(1)));
}

#[test]
fn invalid_role_policy_and_unknown_output_are_rejected_before_host_presentation() {
    let mut stack = stack_on_main();
    let mut invalid = entry(3, OverlayRole::Popover);
    invalid.exclusive_zone = ExclusiveZone::Fixed(20);
    assert_eq!(
        stack.open(invalid, &main_output()),
        Err(OverlayError::InvalidRoleContract(
            "transient surfaces must not reserve output work area"
        ))
    );
    assert!(matches!(
        stack.open(entry(4, OverlayRole::Popover), &OutputId::new("missing".to_owned())),
        Err(OverlayError::UnknownOutput(_))
    ));
    assert!(stack.entries().is_empty());
}

#[test]
fn a_duplicate_overlay_is_refused_and_a_panel_must_reserve_its_area() {
    let mut stack = stack_on_main();
    stack.open(entry(5, OverlayRole::Menu), &main_output()).unwrap();
    assert_eq!(
        stack.open(entry(5, OverlayRole::Popover), &main_output()),
        Err(OverlayError::DuplicateOverlay(OverlayId(5)))
    );
    assert_eq!(
        check_role_contract(
            OverlayRole::Panel,
            ExclusiveZone::NoReservation,
            InputRegion::Interactive
        ),
        Err(OverlayError::InvalidRoleContract(
            "a panel must reserve an exclusive zone"
        ))
    );
    assert_eq!(
        check_role_contract(OverlayRole::Osd, ExclusiveZone::NoReservation, InputRegion::Interactive),
        Err(OverlayError::InvalidRoleContract(
            "an OSD must be pointer and keyboard transparent"
        ))
    );
    assert!(stack.dismiss(OverlayId(5)));
    assert!(!stack.dismiss(OverlayId(5)));
}

#[test]
fn a_panel_is_not_dismissed_by_escape() {
    let mut stack = stack_on_main();
    stack.open(entry(9, OverlayRole::Panel), &main_output()).unwrap();
    assert_eq!(stack.focused_overlay(), Some(OverlayId(9)));
    assert_eq!(stack.handle_escape(), OverlayEscape::Ignored);
    assert!(stack.contains(OverlayId(9)));
    assert_eq!(role_defaults(OverlayRole::Panel).0, ExclusiveZone::Auto);
}

#[test]
fn an_empty_output_name_is_not_registered() {
    let mut stack = OverlayStack::new();
    assert_eq!(
        stack.register_output(OutputId::new(String::new())),
        Err(OverlayError::InvalidOutput("output id must not be empty"))
    );
    assert!(matches!(
        stack.open(entry(1, OverlayRole::Popover), &OutputId::new(String::new())),
        Err(OverlayError::UnknownOutput(_))
    ));
}
