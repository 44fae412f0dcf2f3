//! The design-token roles the shell's panels name. A panel never carries a
//! color, a length or a duration of its own: it names roles, and the active
//! token mode resolves them.

use vstd::prelude::*;

verus! {

/// A color role.
#[derive(Debug, Clone, Copy, PartialEq, Eq, Structural)]
pub enum Color {
    /// The base surface of full-screen system UI.
    Surface,
    /// A raised panel above the surface.
    Elevated,
    /// Primary text.
    TextPrimary,
}

/// A spacing step.
#[derive(Debug, Clone, Copy, PartialEq, Eq, Structural)]
pub enum Spacing {
    /// The large step used as panel padding.
    Lg,
}

/// A corner radius step.
#[derive(Debug, Clone, Copy, PartialEq, Eq, Structural)]
pub enum Radius {
    /// The medium radius of panels.
    Md,
}

/// A control size metric.
#[derive(Debug, Clone, Copy, PartialEq, Eq, Structural)]
pub enum ControlMetric {
    /// Toolbar-sized controls.
    Toolbar,
}

/// A motion role.
#[derive(Debug, Clone, Copy, PartialEq, Eq, Structural)]
pub enum Motion {
    /// A panel presenting or withdrawing.
    Panel,
    /// A workspace switch.
    Workspace,
}

/// A typography role.
#[derive(Debug, Clone, Copy, PartialEq, Eq, Structural)]
pub enum FontStyle {
    Body,
    Title,
}

/// The token roles one panel is drawn with.
#[derive(Debug, Clone, Copy, PartialEq, Eq, Structural)]
pub struct VisualTokenContract {
    pub background: Color,
    pub foreground: Color,
    pub padding: Spacing,
    pub radius: Radius,
    pub metric: ControlMetric,
    pub motion: Motion,
    pub typography: FontStyle,
}

/// The roles of a raised panel over body text that presents with panel
/// motion: the notification center and quick settings.
pub open spec fn panel_tokens() -> VisualTokenContract {
    VisualTokenContract {
        background: Color::Elevated,
        foreground: Color::TextPrimary,
        padding: Spacing::Lg,
        radius: Radius::Md,
        metric: ControlMetric::Toolbar,
        motion: Motion::Panel,
        typography: FontStyle::Body,
    }
}

/// The raised panel roles.
pub fn panel_token_contract() -> (tokens: VisualTokenContract)
    ensures
        tokens == panel_tokens(),
{
    VisualTokenContract {
        background: Color::Elevated,
        foreground: Color::TextPrimary,
        padding: Spacing::Lg,
        radius: Radius::Md,
        metric: ControlMetric::Toolbar,
        motion: Motion::Panel,
        typography: FontStyle::Body,
    }
}

} // verus!
