use sol_shell::launcher::{
    score, ActionOutcome, AppCatalogEntry, AppIdentity, DesktopAction, DesktopActionError,
    DockItem, LaunchVerdict, LocalSearchIndex, RecordingDesktopAdapter, SearchMatch,
    SearchPrivacy, ShellLauncher, ShellModelError, UnavailableDesktopAdapter, SHELL_APP_ID,
};
use sol_shell::system::{ActionSource, SystemAction};

fn entry(app_id: &str, display_name: &str, keywords: &[&str]) -> AppCatalogEntry {
    AppCatalogEntry::new(
        AppIdentity {
            app_id: app_id.to_owned(),
            display_name: display_name.to_owned(),
        },
        keywords.iter().map(|k| (*k).to_owned()).collect(),
    )
}

fn catalog() -> Vec<AppCatalogEntry> {
    vec![
        entry("org.sol.terminal", "Terminal", &["shell", "console"]),
        entry("org.sol.settings", "Settings", &["preferences"]),
    ]
}

const TERMINAL: &str = "org.sol.terminal";

#[test]
fn local_search_is_private_explainable_and_stably_ranked() {
    let mut index = LocalSearchIndex::new();
    for entry in catalog() {
        index.upsert(entry);
    }
    assert_eq!(index.privacy(), SearchPrivacy::LocalCatalogOnly);
    let result = index.query("term", 5);
    assert_eq!(result.len(), 1);
    assert_eq!(result[0].matched_on, SearchMatch::Title);
    assert_eq!(result[0].score, 800);
    assert!(matches!(
        result[0].action(),
        SystemAction::LaunchApplication { .. }
    ));
    assert!(index.query("", 5).is_empty());
}

#[test]
fn denied_search_never_reaches_desktop_adapter() {
    let mut shell = ShellLauncher::new(RecordingDesktopAdapter::default(), catalog());
    let result = shell.search("terminal", 1).pop().unwrap();
    let SystemAction::LaunchApplication { app_id } = result.action() else {
        panic!("a search result launches its application");
    };
    let request = shell.launch_request(&app_id).unwrap();
    assert_eq!(request.caller, SHELL_APP_ID);
    assert_eq!(request.source, ActionSource::ShellLauncher);
    assert_eq!(
        shell.complete_launch(&app_id, Ok(LaunchVerdict::Denied)).unwrap(),
        ActionOutcome::Denied
    );
    assert!(shell.desktop().actions.is_empty());
}

#[test]
fn consent_then_authorized_launch_is_typed_and_recorded() {
    let mut shell = ShellLauncher::new(RecordingDesktopAdapter::default(), catalog());
    let request = shell.launch_request(TERMINAL).unwrap();
    assert_eq!(
        request.action,
        SystemAction::LaunchApplication {
            app_id: TERMINAL.to_owned()
        }
    );
    assert_eq!(
        shell
            .complete_launch(TERMINAL, Ok(LaunchVerdict::AwaitingConsent))
            .unwrap(),
        ActionOutcome::AwaitingConsent
    );
    assert!(shell.desktop().actions.is_empty());
    assert_eq!(
        shell
            .complete_launch(TERMINAL, Ok(LaunchVerdict::Authorized))
            .unwrap(),
        ActionOutcome::Performed
    );
    assert_eq!(
        shell.desktop().actions,
        vec![DesktopAction::Launch(TERMINAL.to_owned())]
    );
}

#[test]
fn dock_pins_running_state_navigation_and_unavailable_activation_are_explicit() {
    let mut shell = ShellLauncher::new(UnavailableDesktopAdapter::new(), catalog());
    shell.pin(TERMINAL).unwrap();
    shell.observe_running(TERMINAL.to_owned(), true);
    assert_eq!(
        shell.dock_items(),
        vec![DockItem {
            entry: catalog().remove(0),
            pinned: true,
            running: true
        }]
    );
    assert!(matches!(
        shell.activate(TERMINAL),
        Err(ShellModelError::Desktop(DesktopActionError::Unavailable))
    ));
}

#[test]
fn unknown_or_not_running_actions_have_no_desktop_side_effect() {
    let mut shell = ShellLauncher::new(RecordingDesktopAdapter::default(), catalog());
    assert!(matches!(
        shell.close(TERMINAL),
        Err(ShellModelError::NotRunning(_))
    ));
    assert!(matches!(
        shell.launch_request("org.sol.unknown"),
        Err(ShellModelError::UnknownApplication(_))
    ));
    assert!(shell.desktop().actions.is_empty());
}

#[test]
fn an_authorization_failure_is_reported_without_a_desktop_action() {
    let mut shell = ShellLauncher::new(RecordingDesktopAdapter::default(), catalog());
    assert_eq!(
        shell.complete_launch(TERMINAL, Err("service offline".to_owned())),
        Err(ShellModelError::Authorization("service offline".to_owned()))
    );
    assert!(shell.desktop().actions.is_empty());
}

#[test]
fn observed_running_apps_join_the_dock_after_the_pins() {
    let mut shell = ShellLauncher::new(RecordingDesktopAdapter::default(), catalog());
    shell.pin(TERMINAL).unwrap();
    shell.pin(TERMINAL).unwrap();
    shell.observe_running("org.sol.settings".to_owned(), true);
    shell.observe_running("org.sol.ghost".to_owned(), true);
    let ids: Vec<String> = shell
        .dock_items()
        .iter()
        .map(|item| item.entry.identity.app_id.clone())
        .collect();
    assert_eq!(ids, vec![TERMINAL.to_owned(), "org.sol.settings".to_owned()]);
    assert!(matches!(
        shell.pin("org.sol.ghost"),
        Err(ShellModelError::UnknownApplication(_))
    ));
    shell.unpin(TERMINAL);
    shell.observe_running("org.sol.settings".to_owned(), false);
    assert!(shell.dock_items().is_empty());
    shell.observe_running(TERMINAL.to_owned(), true);
    assert!(shell.close(TERMINAL).is_ok());
    assert_eq!(
        shell.desktop().actions,
        vec![DesktopAction::Close(TERMINAL.to_owned())]
    );
}

#[test]
fn scoring_prefers_titles_over_ids_over_keywords() {
    let terminal = entry("org.sol.terminal", "Terminal", &["shell", "console"]);
    let exact = score(&terminal, "terminal").unwrap();
    assert_eq!((exact.matched_on, exact.score), (SearchMatch::Title, 1000));
    let by_keyword = score(&terminal, "console").unwrap();
    assert_eq!(by_keyword.matched_on, SearchMatch::Keyword);
    let by_id = score(&terminal, "org.sol").unwrap();
    assert_eq!(by_id.matched_on, SearchMatch::AppId);
    assert!(score(&terminal, "editor").is_none());
}

#[test]
fn a_later_catalog_entry_replaces_an_earlier_one() {
    let mut index = LocalSearchIndex::new();
    index.upsert(entry("org.sol.files", "Files", &[]));
    index.upsert(entry("org.sol.files", "File Manager", &[]));
    assert_eq!(index.entries().len(), 1);
    assert_eq!(
        index.get("org.sol.files").unwrap().identity.display_name,
        "File Manager"
    );
}

#[test]
fn unpinning_keeps_the_other_pins_in_their_order() {
    let mut entries = catalog();
    entries.push(entry("org.sol.files", "Files", &["browser"]));
    let mut shell = ShellLauncher::new(RecordingDesktopAdapter::default(), entries);
    for app_id in ["org.sol.terminal", "org.sol.files", "org.sol.settings"] {
        shell.pin(app_id).unwrap();
    }
    shell.unpin("org.sol.files");
    let ids: Vec<String> = shell
        .dock_items()
        .iter()
        .map(|item| item.entry.identity.app_id.clone())
        .collect();
    assert_eq!(ids, vec!["org.sol.terminal".to_owned(), "org.sol.settings".to_owned()]);
}
