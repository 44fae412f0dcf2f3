use sol_shell::catalog::bundled_app_catalog;
use sol_shell::launcher::{LocalSearchIndex, SearchMatch};

#[test]
fn bundled_entries_are_unique_and_stably_ordered() {
    let catalog = bundled_app_catalog();
    let ids: Vec<_> = catalog.iter().map(|entry| entry.app_id()).collect();

    assert_eq!(
        ids,
        ["org.sol.files", "org.sol.settings", "org.sol.terminal"]
    );
    assert!(ids.windows(2).all(|pair| pair[0] < pair[1]));
}

#[test]
fn every_bundled_entry_is_searchable_by_a_local_keyword() {
    let catalog = bundled_app_catalog();
    assert!(catalog.iter().all(|entry| !entry.keywords.is_empty()));
}

#[test]
fn a_bundled_keyword_finds_its_application() {
    let mut index = LocalSearchIndex::new();
    for entry in bundled_app_catalog() {
        index.upsert(entry);
    }
    let results = index.query("console", 3);
    assert_eq!(results.len(), 1);
    assert_eq!(results[0].entry.app_id(), "org.sol.terminal");
    assert_eq!(results[0].matched_on, SearchMatch::Keyword);
    assert_eq!(results[0].entry.identity.display_name, "Terminal");
}
