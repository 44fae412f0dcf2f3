//! Desktop session policy: what the session does with compositor events and
//! keys, independent of the connection that delivers them.

use vstd::prelude::*;
use crate::dock_surface::DockTarget;
use crate::keys::Key;
use crate::launcher::ActionOutcome;
use crate::launcher_surface::LauncherOutcome;
use crate::text::{digit, digit_char};

verus! {

/// Left pointer button, in the evdev numbering the compositor forwards.
pub const BUTTON_LEFT: u32 = 0x110;

/// What the session did with an event, so a caller can stop the loop.
#[derive(Debug, Clone, Copy, PartialEq, Eq, Structural)]
pub enum SessionFlow {
    /// Keep running.
    Continue,
    /// The compositor ended the session.
    Stop,
}

/// The flow after a protocol error: only a fatal one ends the session.
pub fn protocol_error_flow(fatal: bool) -> (flow: SessionFlow)
    ensures
        flow == if fatal {
            SessionFlow::Stop
        } else {
            SessionFlow::Continue
        },
{
    if fatal {
        SessionFlow::Stop
    } else {
        SessionFlow::Continue
    }
}

/// The letters of a keyboard row, from its first keycode.
pub open spec fn row_letters(base: u32) -> Seq<char> {
    if base == 24 {
        "qwertyuiop"@
    } else if base == 38 {
        "asdfghjkl"@
    } else {
        "zxcvbnm"@
    }
}

/// The key a compositor keycode (the XKB space: evdev plus 8) stands for,
/// among the keys the shell's own surfaces consume. Layout-correct text entry
/// belongs to the input-method path; this is a fixed table.
pub open spec fn keycode_key(keycode: u32) -> Option<Key> {
    if keycode == 9 {
        Some(Key::Escape)
    } else if keycode == 22 {
        Some(Key::Backspace)
    } else if keycode == 23 {
        Some(Key::Tab)
    } else if keycode == 36 {
        Some(Key::Enter)
    } else if keycode == 65 {
        Some(Key::Space)
    } else if keycode == 113 {
        Some(Key::ArrowLeft)
    } else if keycode == 114 {
        Some(Key::ArrowRight)
    } else if 10 <= keycode <= 19 {
        Some(Key::Character(digit_char(if keycode == 19 { 0 } else { (keycode - 9) as nat })))
    } else if 24 <= keycode < 34 {
        Some(Key::Character(row_letters(24)[keycode - 24]))
    } else if 38 <= keycode < 47 {
        Some(Key::Character(row_letters(38)[keycode - 38]))
    } else if 52 <= keycode < 59 {
        Some(Key::Character(row_letters(52)[keycode - 52]))
    } else {
        None
    }
}

fn row_letter(base: u32, keycode: u32) -> (letter: char)
    requires
        (base == 24 && 24 <= keycode < 34) || (base == 38 && 38 <= keycode < 47) || (base == 52
            && 52 <= keycode < 59),
    ensures
        letter == row_letters(base)[keycode - base],
{
    let letters = if base == 24 {
        "qwertyuiop"
    } else if base == 38 {
        "asdfghjkl"
    } else {
        "zxcvbnm"
    };
    proof {
        reveal_strlit("qwertyuiop");
        reveal_strlit("asdfghjkl");
        reveal_strlit("zxcvbnm");
    }
    letters.get_char((keycode - base) as usize)
}

/// Map a compositor keycode to a shell key.
pub fn keycode_to_key(keycode: u32) -> (key: Option<Key>)
    ensures
        key == keycode_key(keycode),
{
    if keycode == 9 {
        Some(Key::Escape)
    } else if keycode == 22 {
        Some(Key::Backspace)
    } else if keycode == 23 {
        Some(Key::Tab)
    } else if keycode == 36 {
        Some(Key::Enter)
    } else if keycode == 65 {
        Some(Key::Space)
    } else if keycode == 113 {
        Some(Key::ArrowLeft)
    } else if keycode == 114 {
        Some(Key::ArrowRight)
    } else if 10 <= keycode && keycode <= 19 {
        let value: u64 = if keycode == 19 {
            0
        } else {
            (keycode - 9) as u64
        };
        Some(Key::Character(digit(value)))
    } else if 24 <= keycode && keycode < 34 {
        Some(Key::Character(row_letter(24, keycode)))
    } else if 38 <= keycode && keycode < 47 {
        Some(Key::Character(row_letter(38, keycode)))
    } else if 52 <= keycode && keycode < 59 {
        Some(Key::Character(row_letter(52, keycode)))
    } else {
        None
    }
}

/// A shell surface the compositor may withdraw.
#[derive(Debug, Clone, Copy, PartialEq, Eq, Structural)]
pub enum ShellSurfaceKind {
    Desktop,
    TopBar,
    Dock,
    Launcher,
}

/// The surface named by a namespace, if it is one of the shell's own.
pub open spec fn surface_of(namespace: Seq<char>) -> Option<ShellSurfaceKind> {
    if namespace == "sol.desktop"@ {
        Some(ShellSurfaceKind::Desktop)
    } else if namespace == "sol.topbar"@ {
        Some(ShellSurfaceKind::TopBar)
    } else if namespace == "sol.dock"@ {
        Some(ShellSurfaceKind::Dock)
    } else if namespace == "sol.launcher"@ {
        Some(ShellSurfaceKind::Launcher)
    } else {
        None
    }
}

/// The surface to present again after the compositor closed the one named
/// `namespace`. A closed Launcher is one the user no longer has open, so it
/// is not put back; neither is an unknown surface.
pub fn surface_to_recreate(namespace: &str) -> (surface: Option<ShellSurfaceKind>)
    ensures
        surface == match surface_of(namespace@) {
            Some(ShellSurfaceKind::Launcher) => None,
            other => other,
        },
{
    if crate::text::str_eq(namespace, "sol.desktop") {
        Some(ShellSurfaceKind::Desktop)
    } else if crate::text::str_eq(namespace, "sol.topbar") {
        Some(ShellSurfaceKind::TopBar)
    } else if crate::text::str_eq(namespace, "sol.dock") {
        Some(ShellSurfaceKind::Dock)
    } else {
        None
    }
}

/// What the session must do next; the native driver performs it.
#[derive(Debug, Clone, PartialEq, Eq)]
pub enum SessionAction {
    /// Nothing to do.
    Nothing,
    /// Repaint the Launcher.
    PresentLauncher,
    /// Withdraw the Launcher.
    CloseLauncher,
    /// Open a closed Launcher or close an open one.
    ToggleLauncher,
    /// Ask the launcher model to launch this application, through its typed
    /// authorization.
    Launch(String),
}

/// What the session does with the open Launcher's answer to a key. A key
/// reaches the Launcher only while it is open: no other Shell surface takes
/// keyboard focus.
pub fn key_action(outcome: LauncherOutcome) -> (action: SessionAction)
    ensures
        action == match outcome {
            LauncherOutcome::Ignored => SessionAction::Nothing,
            LauncherOutcome::Changed => SessionAction::PresentLauncher,
            LauncherOutcome::Dismissed => SessionAction::CloseLauncher,
            LauncherOutcome::Launch(app_id) => SessionAction::Launch(app_id),
        },
{
    match outcome {
        LauncherOutcome::Ignored => SessionAction::Nothing,
        LauncherOutcome::Changed => SessionAction::PresentLauncher,
        LauncherOutcome::Dismissed => SessionAction::CloseLauncher,
        LauncherOutcome::Launch(app_id) => SessionAction::Launch(app_id),
    }
}

/// The Shell surface a left click landed on, with what that surface's hit
/// test found under the pointer.
#[derive(Debug, Clone, PartialEq, Eq)]
pub enum ClickTarget {
    /// The Dock, and the tile under the pointer if any.
    Dock(Option<DockTarget>),
    /// The Launcher, and the application tile under the pointer if any.
    Launcher(Option<String>),
    /// The desktop background.
    Desktop,
    /// Any other surface.
    Other,
}

/// What a click does: a Dock tile launches its application and the Dock's
/// Launcher entry toggles the Launcher; a Launcher tile launches; a click on
/// the wallpaper closes an open Launcher, which keeps it escapable without a
/// keyboard.
pub fn click_action(target: ClickTarget, launcher_visible: bool) -> (action: SessionAction)
    ensures
        action == match target {
            ClickTarget::Dock(Some(DockTarget::Launcher)) => SessionAction::ToggleLauncher,
            ClickTarget::Dock(Some(DockTarget::Application(app_id))) => SessionAction::Launch(app_id),
            ClickTarget::Launcher(Some(app_id)) => SessionAction::Launch(app_id),
            ClickTarget::Desktop => if launcher_visible {
                SessionAction::CloseLauncher
            } else {
                SessionAction::Nothing
            },
            _ => SessionAction::Nothing,
        },
{
    match target {
        ClickTarget::Dock(Some(DockTarget::Launcher)) => SessionAction::ToggleLauncher,
        ClickTarget::Dock(Some(DockTarget::Application(app_id))) => SessionAction::Launch(app_id),
        ClickTarget::Launcher(Some(app_id)) => SessionAction::Launch(app_id),
        ClickTarget::Desktop => if launcher_visible {
            SessionAction::CloseLauncher
        } else {
            SessionAction::Nothing
        },
        _ => SessionAction::Nothing,
    }
}

/// What follows a launch request: only a launch the desktop adapter
/// performed closes an open Launcher and repaints the Dock. A denied or
/// pending request leaves the Launcher open, since closing it would tell the
/// user their click worked when it did not.
pub fn after_launch(outcome: ActionOutcome, launcher_visible: bool) -> (followup: (bool, bool))
    ensures
        followup == (outcome == ActionOutcome::Performed && launcher_visible, outcome
            == ActionOutcome::Performed),
{
    let performed = match outcome {
        ActionOutcome::Performed => true,
        _ => false,
    };
    (performed && launcher_visible, performed)
}

/// The pointer position the session last saw, per surface: a button press
/// carries no coordinates of its own, so a click is resolved against the
/// position reported on the same surface.
#[derive(Debug, Clone, Copy, PartialEq, Eq)]
pub struct PointerTracker<P> {
    pointer: Option<(u32, P)>,
}

impl<P: Copy> PointerTracker<P> {
    /// The surface the pointer is over and its position there.
    pub closed spec fn pointer_spec(&self) -> Option<(u32, P)> {
        self.pointer
    }

    /// No pointer seen yet.
    pub fn new() -> (tracker: Self)
        ensures
            tracker.pointer_spec() is None,
    {
        PointerTracker { pointer: None }
    }

    /// The pointer entered or moved over `surface`, to `at`.
    pub fn moved(&mut self, surface: u32, at: P)
        ensures
            final(self).pointer_spec() == Some((surface, at)),
    {
        self.pointer = Some((surface, at));
    }

    /// The pointer left `surface`; leaving a surface it is not over changes
    /// nothing.
    pub fn left(&mut self, surface: u32)
        ensures
            final(self).pointer_spec() == match old(self).pointer_spec() {
                Some((owner, _)) => if owner == surface {
                    None
                } else {
                    old(self).pointer_spec()
                },
                None => None,
            },
    {
        if let Some((owner, _)) = self.pointer {
            if owner == surface {
                self.pointer = None;
            }
        }
    }

    /// Where a press on `surface` happened: the last position on that
    /// surface, or nothing when the pointer was last seen elsewhere.
    pub fn pressed(&self, surface: u32) -> (at: Option<P>)
        ensures
            at == match self.pointer_spec() {
                Some((owner, position)) => if owner == surface {
                    Some(position)
                } else {
                    None
                },
                None => None,
            },
    {
        match self.pointer {
            Some((owner, position)) => if owner == surface {
                Some(position)
            } else {
                None
            },
            None => None,
        }
    }
}

} // verus!
