use sol_shell::desktop::{after_launch, click_action, key_action, ClickTarget, PointerTracker, SessionAction};
use sol_shell::dock_surface::DockTarget;
use sol_shell::launcher::ActionOutcome;
use sol_shell::launcher_surface::LauncherOutcome;
use sol_shell::desktop::{
    keycode_to_key, protocol_error_flow, surface_to_recreate, SessionFlow, ShellSurfaceKind,
};
use sol_shell::keys::Key;

#[test]
fn scp_keycodes_map_onto_the_keys_the_shell_consumes() {
    assert_eq!(keycode_to_key(9), Some(Key::Escape));
    assert_eq!(keycode_to_key(36), Some(Key::Enter));
    assert_eq!(keycode_to_key(24), Some(Key::Character('q')));
    assert_eq!(keycode_to_key(38), Some(Key::Character('a')));
    assert_eq!(keycode_to_key(52), Some(Key::Character('z')));
    assert_eq!(keycode_to_key(10), Some(Key::Character('1')));
    assert_eq!(keycode_to_key(19), Some(Key::Character('0')));
    // A key the Shell has no meaning for is not invented into one.
    assert_eq!(keycode_to_key(133), None);
    assert_eq!(keycode_to_key(0), None);
}

#[test]
fn editing_keys_and_row_ends_are_mapped() {
    assert_eq!(keycode_to_key(22), Some(Key::Backspace));
    assert_eq!(keycode_to_key(23), Some(Key::Tab));
    assert_eq!(keycode_to_key(33), Some(Key::Character('p')));
    assert_eq!(keycode_to_key(46), Some(Key::Character('l')));
    assert_eq!(keycode_to_key(58), Some(Key::Character('m')));
    assert_eq!(keycode_to_key(59), None);
}

#[test]
fn only_a_fatal_protocol_error_ends_the_session() {
    assert_eq!(protocol_error_flow(true), SessionFlow::Stop);
    assert_eq!(protocol_error_flow(false), SessionFlow::Continue);
}

#[test]
fn a_closed_launcher_is_not_put_back() {
    assert_eq!(
        surface_to_recreate("sol.desktop"),
        Some(ShellSurfaceKind::Desktop)
    );
    assert_eq!(
        surface_to_recreate("sol.topbar"),
        Some(ShellSurfaceKind::TopBar)
    );
    assert_eq!(surface_to_recreate("sol.dock"), Some(ShellSurfaceKind::Dock));
    assert_eq!(surface_to_recreate("sol.launcher"), None);
    assert_eq!(surface_to_recreate("com.example.panel"), None);
}

#[test]
fn the_dock_launcher_entry_toggles_rather_than_launching() {
    assert_eq!(
        click_action(ClickTarget::Dock(Some(DockTarget::Launcher)), false),
        SessionAction::ToggleLauncher
    );
    assert_eq!(
        click_action(
            ClickTarget::Dock(Some(DockTarget::Application("org.sol.files".into()))),
            false
        ),
        SessionAction::Launch("org.sol.files".into())
    );
    assert_eq!(click_action(ClickTarget::Dock(None), true), SessionAction::Nothing);
}

#[test]
fn a_click_on_the_wallpaper_closes_an_open_launcher_only() {
    assert_eq!(click_action(ClickTarget::Desktop, true), SessionAction::CloseLauncher);
    assert_eq!(click_action(ClickTarget::Desktop, false), SessionAction::Nothing);
    assert_eq!(
        click_action(ClickTarget::Launcher(Some("org.sol.terminal".into())), true),
        SessionAction::Launch("org.sol.terminal".into())
    );
    assert_eq!(click_action(ClickTarget::Other, true), SessionAction::Nothing);
}

#[test]
fn escape_closes_the_launcher_the_same_way_the_toggle_does() {
    assert_eq!(key_action(LauncherOutcome::Dismissed), SessionAction::CloseLauncher);
    assert_eq!(key_action(LauncherOutcome::Changed), SessionAction::PresentLauncher);
    assert_eq!(key_action(LauncherOutcome::Ignored), SessionAction::Nothing);
    assert_eq!(
        key_action(LauncherOutcome::Launch("org.sol.files".into())),
        SessionAction::Launch("org.sol.files".into())
    );
}

#[test]
fn a_launch_goes_through_authorization_and_default_deny_starts_nothing() {
    assert_eq!(after_launch(ActionOutcome::Denied, true), (false, false));
    assert_eq!(after_launch(ActionOutcome::AwaitingConsent, true), (false, false));
    assert_eq!(after_launch(ActionOutcome::Performed, true), (true, true));
    assert_eq!(after_launch(ActionOutcome::Performed, false), (false, true));
}

#[test]
fn a_press_resolves_against_the_position_on_the_same_surface() {
    let mut pointer: PointerTracker<(i32, i32)> = PointerTracker::new();
    assert_eq!(pointer.pressed(3), None);
    pointer.moved(3, (10, 20));
    pointer.moved(3, (12, 22));
    assert_eq!(pointer.pressed(3), Some((12, 22)));
    assert_eq!(pointer.pressed(4), None);
    pointer.left(4);
    assert_eq!(pointer.pressed(3), Some((12, 22)));
    pointer.left(3);
    assert_eq!(pointer.pressed(3), None);
}
