//! The trusted consent prompt.
//!
//! The prompt shows one attributed consent request and hands back only typed
//! decisions; it never performs the requested system action itself, and it
//! resolves its one request at most once.

use vstd::prelude::*;
use crate::system::{action_source_name, source_name, ActionSource, ConsentDecision, SystemAction};
use crate::keys::Key;
use crate::text::{decimal, push_decimal};

verus! {

/// Semantic id of the "Allow once" choice.
pub const ALLOW_ONCE_ID: &'static str = "consent.allow-once";
/// Semantic id of the "Always allow" choice.
pub const ALLOW_ALWAYS_ID: &'static str = "consent.allow-always";
/// Semantic id of the "Deny and remember" choice.
pub const DENY_ID: &'static str = "consent.deny";

/// A decision exposed by the trusted consent prompt.
#[derive(Debug, Clone, Copy, PartialEq, Eq, Structural)]
pub enum ConsentChoice {
    /// Authorize only the displayed request.
    AllowOnce,
    /// Authorize this caller/capability pair until the grant is revoked.
    AllowAlways,
    /// Deny this caller/capability pair until the grant is revoked.
    Deny,
}

/// The semantic id of a choice.
pub open spec fn choice_id(choice: ConsentChoice) -> Seq<char> {
    match choice {
        ConsentChoice::AllowOnce => "consent.allow-once"@,
        ConsentChoice::AllowAlways => "consent.allow-always"@,
        ConsentChoice::Deny => "consent.deny"@,
    }
}

impl ConsentChoice {
    /// The choices in the order the prompt offers them.
    pub fn all() -> (choices: [ConsentChoice; 3])
        ensures
            choices@ == seq![ConsentChoice::AllowOnce, ConsentChoice::AllowAlways, ConsentChoice::Deny],
    {
        let choices = [ConsentChoice::AllowOnce, ConsentChoice::AllowAlways, ConsentChoice::Deny];
        proof {
            assert(choices@ =~= seq![ConsentChoice::AllowOnce, ConsentChoice::AllowAlways, ConsentChoice::Deny]);
        }
        choices
    }

    /// Stable semantic id of the choice's control.
    pub fn semantic_id(self) -> (id: &'static str)
        ensures
            id@ == choice_id(self),
    {
        match self {
            ConsentChoice::AllowOnce => ALLOW_ONCE_ID,
            ConsentChoice::AllowAlways => ALLOW_ALWAYS_ID,
            ConsentChoice::Deny => DENY_ID,
        }
    }

    /// Accessible label of the choice's control.
    pub fn label(self) -> (label: &'static str)
        ensures
            label@ == match self {
                ConsentChoice::AllowOnce => "Allow once"@,
                ConsentChoice::AllowAlways => "Always allow"@,
                ConsentChoice::Deny => "Deny and remember"@,
            },
    {
        match self {
            ConsentChoice::AllowOnce => "Allow once",
            ConsentChoice::AllowAlways => "Always allow",
            ConsentChoice::Deny => "Deny and remember",
        }
    }

    /// The typed decision the choice hands to the authorization service.
    pub fn decision(self) -> (decision: ConsentDecision)
        ensures
            decision == match self {
                ConsentChoice::AllowOnce => ConsentDecision::AllowOnce,
                ConsentChoice::AllowAlways => ConsentDecision::AllowAlways,
                ConsentChoice::Deny => ConsentDecision::Deny,
            },
    {
        match self {
            ConsentChoice::AllowOnce => ConsentDecision::AllowOnce,
            ConsentChoice::AllowAlways => ConsentDecision::AllowAlways,
            ConsentChoice::Deny => ConsentDecision::Deny,
        }
    }

    /// The choice whose control has this semantic id, if any.
    pub fn from_semantic_id(id: &str) -> (choice: Option<Self>)
        ensures
            match choice {
                Some(c) => choice_id(c) == id@,
                None => forall|c: ConsentChoice| choice_id(c) != id@,
            },
    {
        proof {
            reveal_strlit("consent.allow-once");
            reveal_strlit("consent.allow-always");
            reveal_strlit("consent.deny");
        }
        if crate::text::str_eq(id, ALLOW_ONCE_ID) {
            Some(ConsentChoice::AllowOnce)
        } else if crate::text::str_eq(id, ALLOW_ALWAYS_ID) {
            Some(ConsentChoice::AllowAlways)
        } else if crate::text::str_eq(id, DENY_ID) {
            Some(ConsentChoice::Deny)
        } else {
            proof {
                assert forall|c: ConsentChoice| choice_id(c) != id@ by {
                    match c {
                        ConsentChoice::AllowOnce => {},
                        ConsentChoice::AllowAlways => {},
                        ConsentChoice::Deny => {},
                    }
                }
            }
            None
        }
    }
}

/// Reading a choice back from its own semantic id gives the same choice.
pub proof fn lemma_choice_id_round_trip(a: ConsentChoice, b: ConsentChoice)
    ensures
        choice_id(a) == choice_id(b) ==> a == b,
{
    reveal_strlit("consent.allow-once");
    reveal_strlit("consent.allow-always");
    reveal_strlit("consent.deny");
    if a != b {
        assert(choice_id(a).len() != choice_id(b).len() || choice_id(a)[8] != choice_id(b)[8]);
    }
}

/// `true` or `false`.
pub open spec fn bool_text(value: bool) -> Seq<char> {
    if value {
        "true"@
    } else {
        "false"@
    }
}

/// The one-line summary of a typed action shown to the user.
pub open spec fn action_summary_of(action: SystemAction) -> Seq<char> {
    match action {
        SystemAction::LaunchApplication { app_id } => "launch application "@ + app_id@,
        SystemAction::Search { query } => "search for "@ + query@,
        SystemAction::SetOutputVolume { percent } => "set output volume to "@ + decimal(
            percent as nat,
        ) + "%"@,
        SystemAction::SetOutputMuted { muted } => "set output muted to "@ + bool_text(muted),
        SystemAction::InvokeNotificationAction { notification_id, action_id } =>
            "invoke notification "@ + decimal(notification_id as nat) + " action "@ + action_id@,
        SystemAction::RequestScreenCapture => "request screen capture"@,
        SystemAction::OpenDocument { uri } => "open document "@ + uri@,
    }
}

/// The one-line summary of a typed action shown to the user.
pub fn action_summary(action: &SystemAction) -> (summary: String)
    ensures
        summary@ == action_summary_of(*action),
{
    match action {
        SystemAction::LaunchApplication { app_id } => {
            let mut s = String::from_str("launch application ");
            s.append(app_id.as_str());
            s
        },
        SystemAction::Search { query } => {
            let mut s = String::from_str("search for ");
            s.append(query.as_str());
            s
        },
        SystemAction::SetOutputVolume { percent } => {
            let mut s = String::from_str("set output volume to ");
            push_decimal(&mut s, *percent as u64);
            s.append("%");
            s
        },
        SystemAction::SetOutputMuted { muted } => {
            let mut s = String::from_str("set output muted to ");
            if *muted {
                s.append("true");
            } else {
                s.append("false");
            }
            s
        },
        SystemAction::InvokeNotificationAction { notification_id, action_id } => {
            let mut s = String::from_str("invoke notification ");
            push_decimal(&mut s, *notification_id);
            s.append(" action ");
            s.append(action_id.as_str());
            s
        },
        SystemAction::RequestScreenCapture => String::from_str("request screen capture"),
        SystemAction::OpenDocument { uri } => {
            let mut s = String::from_str("open document ");
            s.append(uri.as_str());
            s
        },
    }
}

/// One attributed consent request from the authorization service.
#[derive(Debug, Clone, PartialEq, Eq)]
pub struct ConsentRequest {
    /// Authorization-service request identifier.
    pub request_id: u64,
    /// Opaque consent identifier returned unchanged when resolving the prompt.
    pub consent_id: u64,
    /// Validated application identity requesting access.
    pub caller: String,
    /// Shell or portal surface that originated the request.
    pub source: ActionSource,
    /// Least-privilege capability being requested.
    pub capability: String,
    /// Exact typed action that would become authorized.
    pub action: SystemAction,
    /// Policy-owned explanation shown to the user.
    pub rationale: String,
}

/// Stable content projected by a native trusted consent surface.
#[derive(Debug, Clone, PartialEq, Eq)]
pub struct ConsentPromptView {
    pub request_id: u64,
    pub consent_id: u64,
    pub caller: String,
    pub source: &'static str,
    pub capability: String,
    pub action: String,
    pub rationale: String,
    /// The name assistive technology announces for the prompt.
    pub accessible_label: String,
}

/// The authorization service's answer to a resolved consent.
#[derive(Debug, Clone, PartialEq, Eq)]
pub enum ConsentReply<A, D> {
    Authorized(A),
    Denied(D),
    /// The service asked for consent yet again.
    AwaitingUserConsent,
}

/// Completed prompt result. An authorization still must be consumed by a
/// concrete system adapter; the prompt does not execute it.
#[derive(Debug, Clone, PartialEq, Eq)]
pub enum ConsentPromptOutcome<A, D> {
    /// Keyboard focus moved to a prompt choice.
    FocusMoved(ConsentChoice),
    /// The displayed request was authorized.
    Authorized(A),
    /// The displayed request was denied.
    Denied(D),
    /// The key did not apply to this prompt.
    Ignored,
}

/// Failure returned by the trusted consent prompt.
#[derive(Debug, Clone, PartialEq, Eq)]
pub enum ConsentPromptError<E> {
    /// The authorization service rejected or could not persist the decision.
    Authorization(E),
    /// The prompt has already consumed its one displayed consent request.
    AlreadyResolved,
    /// The authorization service returned another pending prompt while
    /// resolving the displayed consent id.
    StillAwaitingConsent,
}

/// What one key does on the prompt's row of choices.
#[derive(Debug, Clone, Copy, PartialEq, Eq, Structural)]
pub enum ConsentKeyStep {
    /// Keyboard focus moved to this choice.
    FocusMoved(ConsentChoice),
    /// The focused choice was activated; resolve it with `select`.
    Choose(ConsentChoice),
    /// The key does not apply to the prompt.
    Ignored,
}

/// The position of a choice in the prompt's row.
pub open spec fn choice_index(choice: ConsentChoice) -> int {
    match choice {
        ConsentChoice::AllowOnce => 0,
        ConsentChoice::AllowAlways => 1,
        ConsentChoice::Deny => 2,
    }
}

/// The choice at a position of the prompt's row.
pub open spec fn choice_at(index: int) -> ConsentChoice {
    if index == 0 {
        ConsentChoice::AllowOnce
    } else if index == 1 {
        ConsentChoice::AllowAlways
    } else {
        ConsentChoice::Deny
    }
}

/// Where focus goes from `focused`: forward (or, with `back`, backward)
/// through the row, wrapping; from no focus, to the first (or last) choice.
pub open spec fn focus_after(focused: Option<ConsentChoice>, back: bool) -> ConsentChoice {
    match focused {
        None => if back {
            ConsentChoice::Deny
        } else {
            ConsentChoice::AllowOnce
        },
        Some(choice) => if back {
            choice_at((choice_index(choice) + 2) % 3)
        } else {
            choice_at((choice_index(choice) + 1) % 3)
        },
    }
}

/// What `key` does with `focused` as the focused choice: Tab and Shift-Tab
/// move focus, Enter and Space activate the focused choice.
pub open spec fn key_step(focused: Option<ConsentChoice>, key: Key) -> ConsentKeyStep {
    match key {
        Key::Tab => ConsentKeyStep::FocusMoved(focus_after(focused, false)),
        Key::ShiftTab => ConsentKeyStep::FocusMoved(focus_after(focused, true)),
        Key::Enter | Key::Space => match focused {
            Some(choice) => ConsentKeyStep::Choose(choice),
            None => ConsentKeyStep::Ignored,
        },
        _ => ConsentKeyStep::Ignored,
    }
}

/// A prompt bound to one exact consent request, resolved at most once.
#[derive(Debug)]
pub struct ConsentPrompt {
    request: ConsentRequest,
    resolved: bool,
    focused: Option<ConsentChoice>,
}

impl ConsentPrompt {
    /// The request this prompt shows.
    pub closed spec fn request_spec(&self) -> ConsentRequest {
        self.request
    }

    /// Whether the prompt has consumed its request.
    pub closed spec fn is_resolved(&self) -> bool {
        self.resolved
    }

    /// The choice holding keyboard focus, if any.
    pub closed spec fn focused_spec(&self) -> Option<ConsentChoice> {
        self.focused
    }

    /// Create a trusted prompt for an authorization-service consent request.
    pub fn new(request: ConsentRequest) -> (prompt: Self)
        ensures
            prompt.request_spec() == request,
            !prompt.is_resolved(),
            prompt.focused_spec() is None,
    {
        ConsentPrompt { request, resolved: false, focused: None }
    }

    /// Handle one key on the row of choices. Focus moves on Tab and
    /// Shift-Tab; activating a choice hands it back to be resolved through
    /// `select`, which refuses once the prompt is resolved.
    pub fn handle_key(&mut self, key: Key) -> (step: ConsentKeyStep)
        ensures
            step == key_step(old(self).focused_spec(), key),
            final(self).request_spec() == old(self).request_spec(),
            final(self).is_resolved() == old(self).is_resolved(),
            final(self).focused_spec() == match step {
                ConsentKeyStep::FocusMoved(choice) => Some(choice),
                _ => old(self).focused_spec(),
            },
    {
        let step = match key {
            Key::Tab | Key::ShiftTab => {
                let back = match key {
                    Key::ShiftTab => true,
                    _ => false,
                };
                let next = match self.focused {
                    None => if back {
                        ConsentChoice::Deny
                    } else {
                        ConsentChoice::AllowOnce
                    },
                    Some(ConsentChoice::AllowOnce) => if back {
                        ConsentChoice::Deny
                    } else {
                        ConsentChoice::AllowAlways
                    },
                    Some(ConsentChoice::AllowAlways) => if back {
                        ConsentChoice::AllowOnce
                    } else {
                        ConsentChoice::Deny
                    },
                    Some(ConsentChoice::Deny) => if back {
                        ConsentChoice::AllowAlways
                    } else {
                        ConsentChoice::AllowOnce
                    },
                };
                self.focused = Some(next);
                ConsentKeyStep::FocusMoved(next)
            },
            Key::Enter | Key::Space => match self.focused {
                Some(choice) => ConsentKeyStep::Choose(choice),
                None => ConsentKeyStep::Ignored,
            },
            _ => ConsentKeyStep::Ignored,
        };
        step
    }

    /// Whether the prompt has consumed its request.
    pub fn resolved(&self) -> (resolved: bool)
        ensures
            resolved == self.is_resolved(),
    {
        self.resolved
    }

    /// The exact attributed request, and the label announced for it.
    pub fn view(&self) -> (view: ConsentPromptView)
        ensures
            view.request_id == self.request_spec().request_id,
            view.consent_id == self.request_spec().consent_id,
            view.caller@ == self.request_spec().caller@,
            view.source@ == source_name(self.request_spec().source),
            view.capability@ == self.request_spec().capability@,
            view.action@ == action_summary_of(self.request_spec().action),
            view.rationale@ == self.request_spec().rationale@,
            view.accessible_label@ == "System permission request from "@ + self.request_spec().caller@
                + ". "@ + action_summary_of(self.request_spec().action) + ". "@
                + self.request_spec().rationale@,
    {
        let action = action_summary(&self.request.action);
        let mut label = String::from_str("System permission request from ");
        label.append(self.request.caller.as_str());
        label.append(". ");
        label.append(action.as_str());
        label.append(". ");
        label.append(self.request.rationale.as_str());
        ConsentPromptView {
            request_id: self.request.request_id,
            consent_id: self.request.consent_id,
            caller: self.request.caller.clone(),
            source: action_source_name(self.request.source),
            capability: self.request.capability.clone(),
            action,
            rationale: self.request.rationale.clone(),
            accessible_label: label,
        }
    }

    /// The decision to hand to the authorization service for `choice`, with
    /// the consent id it resolves; refused once the prompt is resolved.
    pub fn select<E>(&self, choice: ConsentChoice) -> (result: Result<
        (u64, ConsentDecision),
        ConsentPromptError<E>,
    >)
        ensures
            self.is_resolved() ==> result == Err::<(u64, ConsentDecision), ConsentPromptError<E>>(
                ConsentPromptError::AlreadyResolved,
            ),
            !self.is_resolved() ==> result == Ok::<(u64, ConsentDecision), ConsentPromptError<E>>(
                (
                    self.request_spec().consent_id,
                    match choice {
                        ConsentChoice::AllowOnce => ConsentDecision::AllowOnce,
                        ConsentChoice::AllowAlways => ConsentDecision::AllowAlways,
                        ConsentChoice::Deny => ConsentDecision::Deny,
                    },
                ),
            ),
    {
        if self.resolved {
            return Err(ConsentPromptError::AlreadyResolved);
        }
        Ok((self.request.consent_id, choice.decision()))
    }

    /// Take the service's answer to the decision. A service error leaves the
    /// prompt open; any answer resolves it, and a further request for consent
    /// is an error rather than a silently reopened prompt.
    pub fn complete<A, D, E>(&mut self, reply: Result<ConsentReply<A, D>, E>) -> (result: Result<
        ConsentPromptOutcome<A, D>,
        ConsentPromptError<E>,
    >)
        ensures
            final(self).request_spec() == old(self).request_spec(),
            match reply {
                Err(error) => result == Err::<ConsentPromptOutcome<A, D>, ConsentPromptError<E>>(
                    ConsentPromptError::Authorization(error),
                ) && final(self).is_resolved() == old(self).is_resolved(),
                Ok(answer) => final(self).is_resolved() && match answer {
                    ConsentReply::Authorized(a) => result == Ok::<
                        ConsentPromptOutcome<A, D>,
                        ConsentPromptError<E>,
                    >(ConsentPromptOutcome::Authorized(a)),
                    ConsentReply::Denied(d) => result == Ok::<
                        ConsentPromptOutcome<A, D>,
                        ConsentPromptError<E>,
                    >(ConsentPromptOutcome::Denied(d)),
                    ConsentReply::AwaitingUserConsent => result == Err::<
                        ConsentPromptOutcome<A, D>,
                        ConsentPromptError<E>,
                    >(ConsentPromptError::StillAwaitingConsent),
                },
            },
    {
        let answer = match reply {
            Ok(answer) => answer,
            Err(error) => return Err(ConsentPromptError::Authorization(error)),
        };
        self.resolved = true;
        match answer {
            ConsentReply::Authorized(a) => Ok(ConsentPromptOutcome::Authorized(a)),
            ConsentReply::Denied(d) => Ok(ConsentPromptOutcome::Denied(d)),
            ConsentReply::AwaitingUserConsent => Err(ConsentPromptError::StillAwaitingConsent),
        }
    }
}

/// Tab and then Shift-Tab (or Shift-Tab and then Tab) return keyboard focus
/// to the choice it started on.
pub proof fn lemma_focus_steps_undo(choice: ConsentChoice)
    ensures
        focus_after(Some(focus_after(Some(choice), false)), true) == choice,
        focus_after(Some(focus_after(Some(choice), true)), false) == choice,
{
}

} // verus!
