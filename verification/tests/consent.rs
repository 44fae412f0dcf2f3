use sol_shell::consent::{
    action_summary, ConsentChoice, ConsentKeyStep, ConsentPrompt, ConsentPromptError,
    ConsentPromptOutcome, ConsentReply, ConsentRequest,
};
use sol_shell::keys::Key;
use sol_shell::system::{ActionSource, ConsentDecision, SystemAction};

#[derive(Debug, Clone, PartialEq, Eq)]
struct Authorization {
    request_id: u64,
    caller: String,
    action: SystemAction,
}

#[derive(Debug, Clone, PartialEq, Eq)]
enum Denial {
    UserDenied,
}

fn request() -> ConsentRequest {
    ConsentRequest {
        request_id: 1,
        consent_id: 1,
        caller: "com.example.mixer".to_owned(),
        source: ActionSource::QuickSettings,
        capability: "change-quick-settings".to_owned(),
        action: SystemAction::SetOutputMuted { muted: true },
        rationale: "This application wants to change output audio.".to_owned(),
    }
}

fn prompt() -> ConsentPrompt {
    ConsentPrompt::new(request())
}

#[test]
fn view_preserves_attribution_action_and_accessible_choices() {
    let prompt = prompt();
    let view = prompt.view();

    assert_eq!(view.request_id, 1);
    assert_eq!(view.consent_id, 1);
    assert_eq!(view.caller, "com.example.mixer");
    assert_eq!(view.source, "quick-settings");
    assert_eq!(view.capability, "change-quick-settings");
    assert_eq!(view.action, "set output muted to true");
    assert_eq!(
        view.rationale,
        "This application wants to change output audio."
    );
    let choices = ConsentChoice::all();
    assert_eq!(choices.len(), 3);
    assert_eq!(choices[0].label(), "Allow once");
    assert_eq!(choices[1].label(), "Always allow");
    assert_eq!(choices[2].label(), "Deny and remember");
    assert!(view.accessible_label.contains("com.example.mixer"));
    assert!(view.accessible_label.contains("set output muted to true"));
}

#[test]
fn keyboard_allow_once_resolves_exact_request_and_audits_it() {
    let mut prompt = prompt();

    assert_eq!(
        prompt.handle_key(Key::Tab),
        ConsentKeyStep::FocusMoved(ConsentChoice::AllowOnce)
    );
    let ConsentKeyStep::Choose(choice) = prompt.handle_key(Key::Enter) else {
        panic!("enter must activate the focused choice");
    };
    let (consent_id, decision) = prompt.select::<String>(choice).expect("allow once should resolve");
    assert_eq!((consent_id, decision), (1, ConsentDecision::AllowOnce));
    let view = prompt.view();
    let reply: Result<ConsentReply<Authorization, Denial>, String> =
        Ok(ConsentReply::Authorized(Authorization {
            request_id: view.request_id,
            caller: view.caller.clone(),
            action: request().action,
        }));
    let ConsentPromptOutcome::Authorized(authorization) =
        prompt.complete(reply).expect("allow once should resolve")
    else {
        panic!("allow once must authorize the displayed request");
    };
    assert_eq!(authorization.request_id, 1);
    assert_eq!(authorization.caller, "com.example.mixer");
    assert_eq!(
        authorization.action,
        SystemAction::SetOutputMuted { muted: true }
    );
    assert!(prompt.resolved());
    assert_eq!(
        prompt.select::<String>(ConsentChoice::Deny),
        Err(ConsentPromptError::AlreadyResolved)
    );
}

#[test]
fn allow_always_and_deny_persist_caller_scoped_grants() {
    let allowed = prompt();
    assert_eq!(
        allowed.select::<String>(ConsentChoice::AllowAlways),
        Ok((1, ConsentDecision::AllowAlways))
    );

    let mut denied = prompt();
    assert_eq!(
        denied.select::<String>(ConsentChoice::Deny),
        Ok((1, ConsentDecision::Deny))
    );
    let reply: Result<ConsentReply<Authorization, Denial>, String> =
        Ok(ConsentReply::Denied(Denial::UserDenied));
    assert_eq!(
        denied.complete(reply).expect("deny should resolve"),
        ConsentPromptOutcome::Denied(Denial::UserDenied)
    );
}

#[test]
fn a_service_error_leaves_the_prompt_open_and_a_second_prompt_is_refused() {
    let mut prompt = prompt();
    let failed: Result<ConsentReply<Authorization, Denial>, String> = Err("store offline".into());
    assert_eq!(
        prompt.complete(failed),
        Err(ConsentPromptError::Authorization("store offline".to_owned()))
    );
    assert!(!prompt.resolved());
    let again: Result<ConsentReply<Authorization, Denial>, String> =
        Ok(ConsentReply::AwaitingUserConsent);
    assert_eq!(
        prompt.complete(again),
        Err(ConsentPromptError::StillAwaitingConsent)
    );
    assert!(prompt.resolved());
}

#[test]
fn focus_wraps_in_both_directions_and_other_keys_are_ignored() {
    let mut prompt = prompt();
    assert_eq!(prompt.handle_key(Key::Enter), ConsentKeyStep::Ignored);
    assert_eq!(
        prompt.handle_key(Key::ShiftTab),
        ConsentKeyStep::FocusMoved(ConsentChoice::Deny)
    );
    assert_eq!(
        prompt.handle_key(Key::Tab),
        ConsentKeyStep::FocusMoved(ConsentChoice::AllowOnce)
    );
    assert_eq!(prompt.handle_key(Key::Escape), ConsentKeyStep::Ignored);
    assert_eq!(
        prompt.handle_key(Key::Space),
        ConsentKeyStep::Choose(ConsentChoice::AllowOnce)
    );
}

#[test]
fn choices_round_trip_through_their_semantic_ids() {
    for choice in ConsentChoice::all() {
        assert_eq!(ConsentChoice::from_semantic_id(choice.semantic_id()), Some(choice));
    }
    assert_eq!(ConsentChoice::from_semantic_id("consent.maybe"), None);
}

#[test]
fn every_action_has_a_plain_summary() {
    assert_eq!(
        action_summary(&SystemAction::SetOutputVolume { percent: 40 }),
        "set output volume to 40%"
    );
    assert_eq!(
        action_summary(&SystemAction::InvokeNotificationAction {
            notification_id: 7,
            action_id: "reply".into()
        }),
        "invoke notification 7 action reply"
    );
    assert_eq!(
        action_summary(&SystemAction::LaunchApplication {
            app_id: "org.sol.files".into()
        }),
        "launch application org.sol.files"
    );
}
