//! Typed system intents the shell hands to the authorization service.
//!
//! The shell never performs these itself: it names them, attributes them to a
//! caller and a source surface, and lets the permission service decide.

use vstd::prelude::*;

verus! {

/// One typed, caller-attributed system intent.
#[derive(Debug, Clone, PartialEq, Eq)]
pub enum SystemAction {
    /// Start a cataloged application.
    LaunchApplication { app_id: String },
    /// Run a local search.
    Search { query: String },
    /// Set the output volume, in percent.
    SetOutputVolume { percent: u8 },
    /// Mute or unmute the output.
    SetOutputMuted { muted: bool },
    /// Deliver one declared notification action to its application.
    InvokeNotificationAction { notification_id: u64, action_id: String },
    /// Ask to capture the screen.
    RequestScreenCapture,
    /// Open a document by URI.
    OpenDocument { uri: String },
}

/// The shell or portal surface an intent originated in.
#[derive(Debug, Clone, Copy, PartialEq, Eq, Structural)]
pub enum ActionSource {
    ShellLauncher,
    Search,
    QuickSettings,
    Notifications,
    Portal,
    Accessibility,
    Automation,
    AiOrVoice,
}

/// A user's answer to a consent prompt.
#[derive(Debug, Clone, Copy, PartialEq, Eq, Structural)]
pub enum ConsentDecision {
    /// Authorize only the displayed request.
    AllowOnce,
    /// Authorize this caller/capability pair until revoked.
    AllowAlways,
    /// Deny this caller/capability pair until revoked.
    Deny,
}

/// Stable name of an action source, as shown in a consent prompt.
pub open spec fn source_name(source: ActionSource) -> Seq<char> {
    match source {
        ActionSource::ShellLauncher => "shell-launcher"@,
        ActionSource::Search => "search"@,
        ActionSource::QuickSettings => "quick-settings"@,
        ActionSource::Notifications => "notifications"@,
        ActionSource::Portal => "portal"@,
        ActionSource::Accessibility => "accessibility"@,
        ActionSource::Automation => "automation"@,
        ActionSource::AiOrVoice => "ai-or-voice"@,
    }
}

/// Stable name of an action source, as shown in a consent prompt.
pub fn action_source_name(source: ActionSource) -> (name: &'static str)
    ensures
        name@ == source_name(source),
{
    match source {
        ActionSource::ShellLauncher => "shell-launcher",
        ActionSource::Search => "search",
        ActionSource::QuickSettings => "quick-settings",
        ActionSource::Notifications => "notifications",
        ActionSource::Portal => "portal",
        ActionSource::Accessibility => "accessibility",
        ActionSource::Automation => "automation",
        ActionSource::AiOrVoice => "ai-or-voice",
    }
}

} // verus!
