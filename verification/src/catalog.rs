//! Trusted application catalog entries bundled with SOL Shell.
//!
//! Until the package service supplies the authenticated catalog, the Shell
//! exposes only the first-party applications compiled into the system image.
//! Keeping this list explicit is preferable to scanning executables: a file
//! name is not an application identity.

use vstd::prelude::*;
use crate::launcher::{AppCatalogEntry, AppIdentity};
use crate::sort::views;

verus! {

/// The entry views of the first-party applications in the base image.
pub open spec fn bundled_catalog_views() -> Seq<(Seq<char>, Seq<char>, Seq<Seq<char>>)> {
    seq![
        ("org.sol.files"@, "Files"@, seq!["documents"@, "folders"@, "file manager"@]),
        ("org.sol.settings"@, "Settings"@, seq!["preferences"@, "system"@, "configuration"@]),
        ("org.sol.terminal"@, "Terminal"@, seq!["shell"@, "console"@, "command line"@]),
    ]
}

fn entry(app_id: &str, display_name: &str, keywords: [&str; 3]) -> (entry: AppCatalogEntry)
    ensures
        entry@ == (app_id@, display_name@, seq![keywords[0]@, keywords[1]@, keywords[2]@]),
{
    let mut words: Vec<String> = Vec::new();
    words.push(String::from_str(keywords[0]));
    words.push(String::from_str(keywords[1]));
    words.push(String::from_str(keywords[2]));
    let entry = AppCatalogEntry::new(
        AppIdentity {
            app_id: String::from_str(app_id),
            display_name: String::from_str(display_name),
        },
        words,
    );
    proof {
        assert(entry@.2 =~= seq![keywords[0]@, keywords[1]@, keywords[2]@]);
    }
    entry
}

/// The first-party applications present in the base SOL image, in app id
/// order.
pub fn bundled_app_catalog() -> (catalog: Vec<AppCatalogEntry>)
    ensures
        views(catalog@) == bundled_catalog_views(),
{
    let mut catalog: Vec<AppCatalogEntry> = Vec::new();
    catalog.push(entry("org.sol.files", "Files", ["documents", "folders", "file manager"]));
    catalog.push(entry("org.sol.settings", "Settings", ["preferences", "system", "configuration"]));
    catalog.push(entry("org.sol.terminal", "Terminal", ["shell", "console", "command line"]));
    proof {
        assert(views(catalog@) =~= bundled_catalog_views());
    }
    catalog
}

} // verus!
