//! Dock, Launcher, and local Search model.
//!
//! The model owns ordered pins, catalog lookup, deterministic local ranking,
//! and the typed desktop requests that follow an authorization. Activation and
//! window close are deliberately outside it: a concrete desktop adapter must
//! opt in rather than a headless fixture pretending that a desktop action
//! occurred.

use vstd::prelude::*;
use crate::seqs::{first_index, lemma_first_index, lemma_first_index_is};
use crate::sort::{
    arrangement, comparable, lemma_arrangement, ordered_by, pairwise_comparable, sort_ranked,
    strict_order, strictly_sorted, views, Ranked,
};
use crate::system::{ActionSource, SystemAction};
use crate::text::{
    ascii_lower_text, contains_seq, contains_str, lemma_seq_lt_transitive,
    lemma_seq_lt_trichotomy, seq_lt, starts_with, str_eq, str_lt, trim_lowercase, trimmed,
};

verus! {

broadcast use vstd::seq_lib::group_to_multiset_ensures;

/// The fixed caller identity for requests originating in SOL's trusted shell.
pub const SHELL_APP_ID: &'static str = "org.sol.shell";

/// An application's stable identity and user-visible title.
#[derive(Debug, Clone, PartialEq, Eq)]
pub struct AppIdentity {
    /// Reverse-DNS application id.
    pub app_id: String,
    /// User-visible title.
    pub display_name: String,
}

/// One launcher-visible application. Catalogs are supplied by a package/app
/// discovery adapter; the model has no filesystem crawler or network client.
#[derive(Debug, PartialEq, Eq)]
pub struct AppCatalogEntry {
    /// Stable cross-service identity and user-visible title.
    pub identity: AppIdentity,
    /// Local, package-provided search aliases such as `editor` or `terminal`.
    pub keywords: Vec<String>,
}

impl View for AppCatalogEntry {
    type V = (Seq<char>, Seq<char>, Seq<Seq<char>>);

    /// `(app id, display name, keywords)`.
    open spec fn view(&self) -> Self::V {
        (
            self.identity.app_id@,
            self.identity.display_name@,
            self.keywords@.map_values(|k: String| k@),
        )
    }
}

impl Clone for AppCatalogEntry {
    fn clone(&self) -> (copy: Self)
        ensures
            copy@ == self@,
    {
        let keywords = self.keywords.clone();
        proof {
            assert(keywords@.map_values(|k: String| k@) =~= self.keywords@.map_values(
                |k: String| k@,
            ));
        }
        AppCatalogEntry {
            identity: AppIdentity {
                app_id: self.identity.app_id.clone(),
                display_name: self.identity.display_name.clone(),
            },
            keywords,
        }
    }
}

impl AppCatalogEntry {
    /// Create an application catalog entry.
    pub fn new(identity: AppIdentity, keywords: Vec<String>) -> (entry: Self)
        ensures
            entry.identity == identity,
            entry.keywords == keywords,
    {
        AppCatalogEntry { identity, keywords }
    }

    /// Return the durable application id.
    pub fn app_id(&self) -> (id: &str)
        ensures
            id@ == self.identity.app_id@,
    {
        self.identity.app_id.as_str()
    }
}

impl Ranked for AppCatalogEntry {
    /// Catalog entries are presented in app id order.
    open spec fn precedes(&self, other: &Self) -> bool {
        seq_lt(self.identity.app_id@, other.identity.app_id@)
    }

    proof fn lemma_precedes_strict(a: Self, b: Self) {
        lemma_seq_lt_trichotomy(a.identity.app_id@, b.identity.app_id@);
    }

    proof fn lemma_precedes_transitive(a: Self, b: Self, c: Self) {
        lemma_seq_lt_transitive(a.identity.app_id@, b.identity.app_id@, c.identity.app_id@);
    }

    fn ranks_before(&self, other: &Self) -> (before: bool) {
        str_lt(self.identity.app_id.as_str(), other.identity.app_id.as_str())
    }
}

/// Privacy boundary selected for the first search index implementation.
#[derive(Debug, Clone, Copy, PartialEq, Eq, Structural)]
pub enum SearchPrivacy {
    /// Search only caller-provided application catalog metadata in memory.
    /// No file, document, clipboard, telemetry, or network source is queried.
    LocalCatalogOnly,
}

impl Default for SearchPrivacy {
    fn default() -> (privacy: Self)
        ensures
            privacy == SearchPrivacy::LocalCatalogOnly,
    {
        SearchPrivacy::LocalCatalogOnly
    }
}

/// How a result matched a local catalog term: explainable rather than
/// heuristic, so ranking is repeatable.
#[derive(Debug, Clone, Copy, PartialEq, Eq, Structural)]
pub enum SearchMatch {
    /// Exact, prefix, or substring title match.
    Title,
    /// Prefix or substring of the reverse-DNS app id.
    AppId,
    /// Match of a package-provided local keyword.
    Keyword,
}

/// One ranked search result, carrying its typed launch intent; no arbitrary
/// program, argv, URL, or shell string crosses this boundary.
#[derive(Debug, Clone, PartialEq, Eq)]
pub struct SearchResult {
    /// Matching application identity.
    pub entry: AppCatalogEntry,
    /// Explainable matching category.
    pub matched_on: SearchMatch,
    /// Higher ranks first; ties resolve by app id spelling.
    pub score: u16,
}

impl View for SearchResult {
    type V = ((Seq<char>, Seq<char>, Seq<Seq<char>>), SearchMatch, u16);

    open spec fn view(&self) -> Self::V {
        (self.entry@, self.matched_on, self.score)
    }
}

impl SearchResult {
    /// Return the permission-aware intent to launch this known application.
    pub fn action(&self) -> (action: SystemAction)
        ensures
            action matches SystemAction::LaunchApplication { app_id } && app_id@
                == self.entry.identity.app_id@,
    {
        SystemAction::LaunchApplication { app_id: self.entry.identity.app_id.clone() }
    }
}

impl Ranked for SearchResult {
    /// Higher scores first, then app ids in code-point order.
    open spec fn precedes(&self, other: &Self) -> bool {
        self.score > other.score || (self.score == other.score && seq_lt(
            self.entry.identity.app_id@,
            other.entry.identity.app_id@,
        ))
    }

    proof fn lemma_precedes_strict(a: Self, b: Self) {
        lemma_seq_lt_trichotomy(a.entry.identity.app_id@, b.entry.identity.app_id@);
    }

    proof fn lemma_precedes_transitive(a: Self, b: Self, c: Self) {
        if a.score == b.score && b.score == c.score {
            lemma_seq_lt_transitive(
                a.entry.identity.app_id@,
                b.entry.identity.app_id@,
                c.entry.identity.app_id@,
            );
        }
    }

    fn ranks_before(&self, other: &Self) -> (before: bool) {
        self.score > other.score || (self.score == other.score && str_lt(
            self.entry.identity.app_id.as_str(),
            other.entry.identity.app_id.as_str(),
        ))
    }
}

// ---------------------------------------------------------------------------
// Scoring.

/// A term as search compares it: trimmed of white space, ASCII lower case.
pub open spec fn normalized(text: Seq<char>) -> Seq<char> {
    ascii_lower_text(trimmed(text))
}

/// Whether some keyword, normalized, starts with `query`.
pub open spec fn keyword_prefixed(keywords: Seq<Seq<char>>, query: Seq<char>) -> bool {
    exists|k: int| 0 <= k < keywords.len() && query.is_prefix_of(normalized(#[trigger] keywords[k]))
}

/// Whether some keyword, normalized, contains `query`.
pub open spec fn keyword_containing(keywords: Seq<Seq<char>>, query: Seq<char>) -> bool {
    exists|k: int| 0 <= k < keywords.len() && contains_seq(normalized(#[trigger] keywords[k]), query)
}

/// How an entry matches a normalized query, and its score; `None` when it
/// does not. An exact title beats a title prefix, which beats a keyword
/// prefix, an app id prefix, then title, keyword, and app id substrings.
pub open spec fn score_of(entry: (Seq<char>, Seq<char>, Seq<Seq<char>>), query: Seq<char>) -> Option<
    (SearchMatch, u16),
> {
    let title = normalized(entry.1);
    let app_id = entry.0;
    if title == query {
        Some((SearchMatch::Title, 1000))
    } else if query.is_prefix_of(title) {
        Some((SearchMatch::Title, 800))
    } else if keyword_prefixed(entry.2, query) {
        Some((SearchMatch::Keyword, 600))
    } else if query.is_prefix_of(app_id) {
        Some((SearchMatch::AppId, 400))
    } else if contains_seq(title, query) {
        Some((SearchMatch::Title, 300))
    } else if keyword_containing(entry.2, query) {
        Some((SearchMatch::Keyword, 200))
    } else if contains_seq(app_id, query) {
        Some((SearchMatch::AppId, 100))
    } else {
        None
    }
}

/// Whether a keyword, normalized, starts with (or, with `anywhere`, contains)
/// `query`.
fn any_keyword(keywords: &Vec<String>, query: &str, anywhere: bool) -> (found: bool)
    ensures
        found == if anywhere {
            keyword_containing(keywords@.map_values(|k: String| k@), query@)
        } else {
            keyword_prefixed(keywords@.map_values(|k: String| k@), query@)
        },
{
    let ghost words = keywords@.map_values(|k: String| k@);
    let mut i: usize = 0;
    while i < keywords.len()
        invariant
            i <= keywords@.len(),
            words == keywords@.map_values(|k: String| k@),
            forall|k: int|
                0 <= k < i ==> !(if anywhere {
                    contains_seq(normalized(#[trigger] words[k]), query@)
                } else {
                    query@.is_prefix_of(normalized(words[k]))
                }),
        decreases keywords@.len() - i,
    {
        let keyword = trim_lowercase(keywords[i].as_str());
        let hit = if anywhere {
            contains_str(keyword.as_str(), query)
        } else {
            starts_with(keyword.as_str(), query)
        };
        if hit {
            proof {
                assert(words[i as int] == keywords@[i as int]@);
            }
            return true;
        }
        proof {
            assert(words[i as int] == keywords@[i as int]@);
        }
        i = i + 1;
    }
    false
}

/// Score one entry against a normalized query.
pub fn score(entry: &AppCatalogEntry, query: &str) -> (result: Option<SearchResult>)
    ensures
        match score_of(entry@, query@) {
            None => result is None,
            Some((matched_on, score)) => result matches Some(r) && r@ == (entry@, matched_on, score),
        },
{
    let title = trim_lowercase(entry.identity.display_name.as_str());
    let app_id = entry.identity.app_id.as_str();
    let (matched_on, score) = if str_eq(title.as_str(), query) {
        (SearchMatch::Title, 1000u16)
    } else if starts_with(title.as_str(), query) {
        (SearchMatch::Title, 800u16)
    } else if any_keyword(&entry.keywords, query, false) {
        (SearchMatch::Keyword, 600u16)
    } else if starts_with(app_id, query) {
        (SearchMatch::AppId, 400u16)
    } else if contains_str(title.as_str(), query) {
        (SearchMatch::Title, 300u16)
    } else if any_keyword(&entry.keywords, query, true) {
        (SearchMatch::Keyword, 200u16)
    } else if contains_str(app_id, query) {
        (SearchMatch::AppId, 100u16)
    } else {
        return None;
    };
    Some(SearchResult { entry: entry.clone(), matched_on, score })
}

// ---------------------------------------------------------------------------
// The index.

/// Whether an entry has the app id `id`.
pub open spec fn has_app_id(id: Seq<char>) -> spec_fn(AppCatalogEntry) -> bool {
    |entry: AppCatalogEntry| entry.identity.app_id@ == id
}

/// The entry recorded for an app id, if any.
pub open spec fn catalog_lookup(entries: Seq<AppCatalogEntry>, id: Seq<char>) -> Option<
    (Seq<char>, Seq<char>, Seq<Seq<char>>),
> {
    let at = first_index(entries, has_app_id(id));
    if at < 0 {
        None
    } else {
        Some(entries[at]@)
    }
}

/// Whether no two entries share an app id.
pub open spec fn distinct_app_ids(entries: Seq<AppCatalogEntry>) -> bool {
    forall|i: int, j: int|
        0 <= i < entries.len() && 0 <= j < entries.len() && i != j ==> #[trigger] entries[i].identity.app_id@
            != #[trigger] entries[j].identity.app_id@
}

/// The results a normalized query gives, in catalog order, before ranking.
pub open spec fn search_matches(entries: Seq<AppCatalogEntry>, query: Seq<char>) -> Seq<
    ((Seq<char>, Seq<char>, Seq<Seq<char>>), SearchMatch, u16),
>
    decreases entries.len(),
{
    if entries.len() == 0 {
        Seq::empty()
    } else {
        let earlier = search_matches(entries.drop_last(), query);
        match score_of(entries.last()@, query) {
            Some((matched_on, score)) => earlier.push((entries.last()@, matched_on, score)),
            None => earlier,
        }
    }
}

/// The plain content of a catalog entry: `(app id, display name, keywords)`.
pub type EntryView = (Seq<char>, Seq<char>, Seq<Seq<char>>);

/// The plain content of a search result: `(entry, matched on, score)`.
pub type ResultView = (EntryView, SearchMatch, u16);

/// Catalog entries are presented in app id order.
pub open spec fn entry_order() -> spec_fn(EntryView, EntryView) -> bool {
    |a: EntryView, b: EntryView| seq_lt(a.0, b.0)
}

/// Results are presented best score first, then in app id order.
pub open spec fn result_order() -> spec_fn(ResultView, ResultView) -> bool {
    |a: ResultView, b: ResultView| a.2 > b.2 || (a.2 == b.2 && seq_lt(a.0.0, b.0.0))
}

/// The matches of a normalized query in presentation order.
pub open spec fn ranked_matches(entries: Seq<AppCatalogEntry>, query: Seq<char>) -> Seq<ResultView> {
    arrangement(search_matches(entries, query).to_multiset(), result_order())
}

/// How many results a query with `limit` shows out of `found`.
pub open spec fn result_count(limit: usize, found: int) -> int {
    if (limit as int) < found {
        limit as int
    } else {
        found
    }
}

/// App id order is a strict order.
pub proof fn lemma_entry_order_strict()
    ensures
        strict_order(entry_order()),
{
    assert forall|x: EntryView| !(#[trigger] entry_order()(x, x)) by {
        lemma_seq_lt_trichotomy(x.0, x.0);
    }
    assert forall|x: EntryView, y: EntryView, z: EntryView|
        #[trigger] entry_order()(x, y) && #[trigger] entry_order()(y, z) implies entry_order()(x, z) by {
        lemma_seq_lt_transitive(x.0, y.0, z.0);
    }
}

/// Result order is a strict order.
pub proof fn lemma_result_order_strict()
    ensures
        strict_order(result_order()),
{
    assert forall|x: ResultView| !(#[trigger] result_order()(x, x)) by {
        lemma_seq_lt_trichotomy(x.0.0, x.0.0);
    }
    assert forall|x: ResultView, y: ResultView, z: ResultView|
        #[trigger] result_order()(x, y) && #[trigger] result_order()(y, z) implies result_order()(x, z) by {
        if x.2 == y.2 && y.2 == z.2 {
            lemma_seq_lt_transitive(x.0.0, y.0.0, z.0.0);
        }
    }
}

/// Stable, local-only application search index. Indexing replaces an existing
/// entry for the same app id, so package refreshes cannot create ambiguous
/// duplicate launch targets.
#[derive(Debug)]
pub struct LocalSearchIndex {
    entries: Vec<AppCatalogEntry>,
}

impl LocalSearchIndex {
    #[verifier::type_invariant]
    spec fn well_formed(self) -> bool {
        distinct_app_ids(self.entries@)
    }

    /// The indexed entries, in indexing order.
    pub closed spec fn entries_spec(&self) -> Seq<AppCatalogEntry> {
        self.entries@
    }

    /// The entry recorded for an app id, if any.
    pub open spec fn lookup(&self, id: Seq<char>) -> Option<(Seq<char>, Seq<char>, Seq<Seq<char>>)> {
        catalog_lookup(self.entries_spec(), id)
    }

    /// An empty index.
    pub fn new() -> (index: Self)
        ensures
            index.entries_spec().len() == 0,
            forall|id: Seq<char>| #[trigger] index.lookup(id) is None,
    {
        LocalSearchIndex { entries: Vec::new() }
    }

    fn position(&self, app_id: &str) -> (at: Option<usize>)
        ensures
            match at {
                Some(i) => i < self.entries@.len() && first_index(self.entries@, has_app_id(app_id@))
                    == i,
                None => first_index(self.entries@, has_app_id(app_id@)) == -1,
            },
    {
        let mut i: usize = 0;
        while i < self.entries.len()
            invariant
                i <= self.entries@.len(),
                forall|j: int| 0 <= j < i ==> !has_app_id(app_id@)(#[trigger] self.entries@[j]),
            decreases self.entries@.len() - i,
        {
            if str_eq(self.entries[i].identity.app_id.as_str(), app_id) {
                proof {
                    lemma_first_index_is(self.entries@, has_app_id(app_id@), i as int);
                }
                return Some(i);
            }
            i = i + 1;
        }
        proof {
            lemma_first_index_is(self.entries@, has_app_id(app_id@), -1);
        }
        None
    }

    /// Add or replace a local application record.
    pub fn upsert(&mut self, entry: AppCatalogEntry)
        ensures
            forall|id: Seq<char>|
                #[trigger] final(self).lookup(id) == if id == entry.identity.app_id@ {
                    Some(entry@)
                } else {
                    old(self).lookup(id)
                },
    {
        proof {
            use_type_invariant(&*self);
        }
        let ghost before = self.entries@;
        let ghost new_id = entry.identity.app_id@;
        let at = self.position(entry.identity.app_id.as_str());
        let ghost after = match at {
            Some(i) => before.update(i as int, entry),
            None => before.push(entry),
        };
        proof {
            lemma_first_index(before, has_app_id(new_id));
            assert forall|a: int, b: int|
                0 <= a < after.len() && 0 <= b < after.len() && a != b implies #[trigger] after[a].identity.app_id@
                != #[trigger] after[b].identity.app_id@ by {
                if a < before.len() && b < before.len() {
                    if after[a] != before[a] {
                        assert(!has_app_id(new_id)(before[b]) || b == first_index(before, has_app_id(new_id)));
                    }
                    if after[b] != before[b] {
                        assert(!has_app_id(new_id)(before[a]) || a == first_index(before, has_app_id(new_id)));
                    }
                } else if a < before.len() {
                    assert(!has_app_id(new_id)(before[a]));
                } else {
                    assert(!has_app_id(new_id)(before[b]));
                }
            }
            assert forall|id: Seq<char>| #[trigger] catalog_lookup(after, id) == if id == new_id {
                Some(entry@)
            } else {
                catalog_lookup(before, id)
            } by {
                lemma_first_index(before, has_app_id(id));
                let r = first_index(before, has_app_id(id));
                if id == new_id {
                    let w = if at is Some { at->Some_0 as int } else { before.len() as int };
                    assert(after[w] == entry);
                    assert forall|j: int| 0 <= j < after.len() && j < w implies !has_app_id(id)(#[trigger] after[j]) by {
                        assert(after[j] == before[j]);
                    }
                    lemma_first_index_is(after, has_app_id(id), w);
                } else {
                    if r >= 0 {
                        assert(after[r] == before[r]) by {
                            if at is Some {
                                assert(r != at->Some_0);
                            }
                        }
                        assert forall|j: int| 0 <= j < after.len() && j < r implies !has_app_id(id)(#[trigger] after[j]) by {
                            if at is Some && j == at->Some_0 {
                            } else {
                                assert(after[j] == before[j]);
                            }
                        }
                        lemma_first_index_is(after, has_app_id(id), r);
                    } else {
                        assert forall|j: int| 0 <= j < after.len() implies !has_app_id(id)(#[trigger] after[j]) by {
                            if (at is Some && j == at->Some_0) || j == before.len() {
                            } else {
                                assert(after[j] == before[j]);
                            }
                        }
                        lemma_first_index_is(after, has_app_id(id), -1);
                    }
                }
            }
        }
        let mut entries: Vec<AppCatalogEntry> = Vec::new();
        std::mem::swap(&mut entries, &mut self.entries);
        match at {
            Some(i) => {
                entries.set(i, entry);
            },
            None => {
                entries.push(entry);
            },
        }
        proof {
            assert(entries@ =~= after);
        }
        self.entries = entries;
    }

    /// Return the deliberate privacy policy: local catalog metadata only.
    pub fn privacy(&self) -> (privacy: SearchPrivacy)
        ensures
            privacy == SearchPrivacy::LocalCatalogOnly,
    {
        SearchPrivacy::LocalCatalogOnly
    }

    /// Return a local catalog entry by stable identity.
    pub fn get(&self, app_id: &str) -> (entry: Option<&AppCatalogEntry>)
        ensures
            match entry {
                Some(e) => self.lookup(app_id@) == Some(e@),
                None => self.lookup(app_id@) is None,
            },
    {
        match self.position(app_id) {
            Some(i) => Some(&self.entries[i]),
            None => None,
        }
    }

    /// The catalog entries in stable app id order.
    pub fn entries(&self) -> (entries: Vec<AppCatalogEntry>)
        ensures
            views(entries@) == arrangement(views(self.entries_spec()).to_multiset(), entry_order()),
            entries@.len() == self.entries_spec().len(),
    {
        proof {
            use_type_invariant(self);
        }
        let copy = self.entries.clone();
        proof {
            assert(views(copy@) =~= views(self.entries@)) by {
                assert forall|k: int| 0 <= k < copy@.len() implies copy@[k]@ == self.entries@[k]@ by {}
            }
            assert forall|i: int, j: int|
                0 <= i < copy@.len() && 0 <= j < copy@.len() && i != j implies comparable(
                #[trigger] copy@[i],
                #[trigger] copy@[j],
            ) by {
                assert(views(copy@)[i] == views(self.entries@)[i]);
                assert(views(copy@)[j] == views(self.entries@)[j]);
                lemma_seq_lt_trichotomy(copy@[i].identity.app_id@, copy@[j].identity.app_id@);
            }
        }
        let sorted = sort_ranked(copy);
        proof {
            lemma_entry_order_strict();
            assert(ordered_by(views(sorted@), entry_order())) by {
                assert forall|i: int, j: int|
                    #![trigger views(sorted@)[i], views(sorted@)[j]]
                    0 <= i < j < views(sorted@).len() implies entry_order()(
                    views(sorted@)[i],
                    views(sorted@)[j],
                ) by {
                    assert(sorted@[i].precedes(&sorted@[j]));
                }
            }
            lemma_arrangement(views(sorted@), entry_order());
        }
        sorted
    }

    /// Query applications with deterministic, local ranking: the matches of
    /// the trimmed, lower-cased query, best score first and ties by app id,
    /// at most `limit` of them. An empty query or limit finds nothing.
    pub fn query(&self, query: &str, limit: usize) -> (results: Vec<SearchResult>)
        ensures
            ({
                let q = normalized(query@);
                let found = search_matches(self.entries_spec(), q);
                if q.len() == 0 || limit == 0 {
                    results@.len() == 0
                } else {
                    &&& results@.len() == result_count(limit, found.len() as int)
                    &&& views(results@) == ranked_matches(self.entries_spec(), q).take(
                        result_count(limit, found.len() as int),
                    )
                }
            }),
    {
        proof {
            use_type_invariant(self);
        }
        let q = trim_lowercase(query);
        if q.unicode_len() == 0 || limit == 0 {
            return Vec::new();
        }
        let mut found: Vec<SearchResult> = Vec::new();
        let mut i: usize = 0;
        while i < self.entries.len()
            invariant
                i <= self.entries@.len(),
                distinct_app_ids(self.entries@),
                views(found@) == search_matches(self.entries@.take(i as int), q@),
                forall|j: int|
                    0 <= j < found@.len() ==> exists|k: int|
                        0 <= k < i && #[trigger] found@[j].entry.identity.app_id@
                            == self.entries@[k].identity.app_id@,
                forall|a: int, b: int|
                    0 <= a < found@.len() && 0 <= b < found@.len() && a != b ==> #[trigger] found@[a].entry.identity.app_id@
                        != #[trigger] found@[b].entry.identity.app_id@,
            decreases self.entries@.len() - i,
        {
            proof {
                assert(self.entries@.take(i + 1).drop_last() =~= self.entries@.take(i as int));
            }
            let ghost before = found@;
            match score(&self.entries[i], q.as_str()) {
                Some(result) => {
                    found.push(result);
                    proof {
                        assert(views(found@) =~= views(before).push(found@.last()@));
                        assert(found@.last().entry@ == self.entries@[i as int]@);
                        assert forall|j: int| 0 <= j < found@.len() implies exists|k: int|
                            0 <= k < i + 1 && #[trigger] found@[j].entry.identity.app_id@
                                == self.entries@[k].identity.app_id@ by {
                            if j < before.len() {
                                assert(found@[j] == before[j]);
                            } else {
                                assert(found@[j].entry.identity.app_id@ == self.entries@[i as int].identity.app_id@);
                            }
                        }
                        assert forall|a: int, b: int|
                            0 <= a < found@.len() && 0 <= b < found@.len() && a != b implies #[trigger] found@[a].entry.identity.app_id@
                                != #[trigger] found@[b].entry.identity.app_id@ by {
                            if a < before.len() && b < before.len() {
                                assert(found@[a] == before[a] && found@[b] == before[b]);
                            } else if a < before.len() {
                                assert(found@[a] == before[a]);
                                let k = choose|k: int| 0 <= k < i && #[trigger] before[a].entry.identity.app_id@
                                    == self.entries@[k].identity.app_id@;
                                assert(self.entries@[k].identity.app_id@ != self.entries@[i as int].identity.app_id@);
                            } else {
                                assert(found@[b] == before[b]);
                                let k = choose|k: int| 0 <= k < i && #[trigger] before[b].entry.identity.app_id@
                                    == self.entries@[k].identity.app_id@;
                                assert(self.entries@[k].identity.app_id@ != self.entries@[i as int].identity.app_id@);
                            }
                        }
                    }
                },
                None => {
                    proof {
                        assert forall|j: int| 0 <= j < found@.len() implies exists|k: int|
                            0 <= k < i + 1 && #[trigger] found@[j].entry.identity.app_id@
                                == self.entries@[k].identity.app_id@ by {
                            let k = choose|k: int| 0 <= k < i && #[trigger] found@[j].entry.identity.app_id@
                                == self.entries@[k].identity.app_id@;
                        }
                    }
                },
            }
            i = i + 1;
        }
        proof {
            assert(self.entries@.take(i as int) =~= self.entries@);
            assert forall|a: int, b: int|
                0 <= a < found@.len() && 0 <= b < found@.len() && a != b implies comparable(
                #[trigger] found@[a],
                #[trigger] found@[b],
            ) by {
                lemma_seq_lt_trichotomy(found@[a].entry.identity.app_id@, found@[b].entry.identity.app_id@);
            }
        }
        let mut ranked = sort_ranked(found);
        let ghost all = ranked@;
        proof {
            lemma_result_order_strict();
            assert(ordered_by(views(all), result_order())) by {
                assert forall|i: int, j: int|
                    #![trigger views(all)[i], views(all)[j]]
                    0 <= i < j < views(all).len() implies result_order()(views(all)[i], views(all)[j]) by {
                    assert(all[i].precedes(&all[j]));
                }
            }
            lemma_arrangement(views(all), result_order());
        }
        ranked.truncate(limit);
        proof {
            assert(ranked@ =~= all.take(ranked@.len() as int));
            assert(views(ranked@) =~= views(all).take(ranked@.len() as int));
        }
        ranked
    }
}

// ---------------------------------------------------------------------------
// Desktop actions.

/// One explicit desktop operation, identified by app id instead of a window
/// handle or shell command.
#[derive(Debug, Clone, PartialEq, Eq)]
pub enum DesktopAction {
    /// Start a cataloged application after authorization.
    Launch(String),
    /// Bring an observed running application to the foreground.
    Activate(String),
    /// Request closing an observed running application.
    Close(String),
}

/// The kind of a desktop action.
#[derive(Debug, Clone, Copy, PartialEq, Eq, Structural)]
pub enum DesktopActionKind {
    Launch,
    Activate,
    Close,
}

/// The kind and application of a desktop action.
pub open spec fn action_view(action: DesktopAction) -> (DesktopActionKind, Seq<char>) {
    match action {
        DesktopAction::Launch(id) => (DesktopActionKind::Launch, id@),
        DesktopAction::Activate(id) => (DesktopActionKind::Activate, id@),
        DesktopAction::Close(id) => (DesktopActionKind::Close, id@),
    }
}

/// Whether `after` is `before` with one more action carried out: of `kind`,
/// on application `app_id`.
pub open spec fn carried_out(
    before: Seq<DesktopAction>,
    after: Seq<DesktopAction>,
    kind: DesktopActionKind,
    app_id: Seq<char>,
) -> bool {
    &&& after.len() == before.len() + 1
    &&& after.drop_last() == before
    &&& action_view(after.last()) == (kind, app_id)
}

/// Result from a desktop-action adapter.
#[derive(Debug, Clone, PartialEq, Eq)]
pub enum DesktopActionError {
    /// No concrete session integration is installed.
    Unavailable,
    /// A platform adapter refused the typed request.
    Rejected(String),
}

impl DesktopActionError {
    /// The diagnostic text.
    pub fn message(&self) -> (message: String)
        ensures
            message@ == match self {
                DesktopActionError::Unavailable => "desktop action adapter is unavailable"@,
                DesktopActionError::Rejected(reason) => "desktop action rejected: "@ + reason@,
            },
    {
        match self {
            DesktopActionError::Unavailable => String::from_str("desktop action adapter is unavailable"),
            DesktopActionError::Rejected(reason) => {
                let mut message = String::from_str("desktop action rejected: ");
                message.append(reason.as_str());
                message
            },
        }
    }
}

/// A native session bridge for desktop actions. A recording fixture is
/// useful in tests, but it is not evidence that a client was activated.
pub trait DesktopActionAdapter {
    /// The actions this adapter has carried out, oldest first.
    spec fn performed(&self) -> Seq<DesktopAction>;

    /// The actions this adapter has been asked to carry out, oldest first,
    /// whether or not it did.
    spec fn requested(&self) -> Seq<DesktopAction>;

    /// Attempt one typed desktop action. Every call is recorded as
    /// requested; one reported done was carried out, after those carried out
    /// before it, and a failure carried nothing out.
    fn perform(&mut self, action: DesktopAction) -> (result: Result<(), DesktopActionError>)
        ensures
            final(self).requested() == old(self).requested().push(action),
            result is Ok ==> final(self).performed() == old(self).performed().push(action),
            result is Err ==> final(self).performed() == old(self).performed(),
    ;
}

/// Safe production-default adapter until activation and close transport
/// exist: it performs nothing and says so.
#[derive(Clone, Copy)]
pub struct UnavailableDesktopAdapter {
    requests: Ghost<Seq<DesktopAction>>,
}

impl UnavailableDesktopAdapter {
    /// An adapter that has not been asked for anything yet.
    pub fn new() -> (adapter: Self)
        ensures
            adapter.requested() == Seq::<DesktopAction>::empty(),
    {
        UnavailableDesktopAdapter { requests: Ghost(Seq::empty()) }
    }
}

impl Default for UnavailableDesktopAdapter {
    fn default() -> (adapter: Self)
        ensures
            adapter.requested() == Seq::<DesktopAction>::empty(),
    {
        UnavailableDesktopAdapter::new()
    }
}

impl DesktopActionAdapter for UnavailableDesktopAdapter {
    open spec fn performed(&self) -> Seq<DesktopAction> {
        Seq::empty()
    }

    closed spec fn requested(&self) -> Seq<DesktopAction> {
        self.requests@
    }

    fn perform(&mut self, action: DesktopAction) -> (result: Result<(), DesktopActionError>)
        ensures
            result == Err::<(), DesktopActionError>(DesktopActionError::Unavailable),
    {
        proof {
            self.requests@ = self.requests@.push(action);
        }
        Err(DesktopActionError::Unavailable)
    }
}

/// Deterministic fixture that records requests without touching a desktop.
#[derive(Debug, Clone, PartialEq, Eq)]
pub struct RecordingDesktopAdapter {
    /// Actions submitted in order.
    pub actions: Vec<DesktopAction>,
}

impl Default for RecordingDesktopAdapter {
    fn default() -> (adapter: Self)
        ensures
            adapter.actions@.len() == 0,
    {
        RecordingDesktopAdapter { actions: Vec::new() }
    }
}

impl DesktopActionAdapter for RecordingDesktopAdapter {
    open spec fn performed(&self) -> Seq<DesktopAction> {
        self.actions@
    }

    open spec fn requested(&self) -> Seq<DesktopAction> {
        self.actions@
    }

    fn perform(&mut self, action: DesktopAction) -> (result: Result<(), DesktopActionError>)
        ensures
            result is Ok,
            final(self).actions@ == old(self).actions@.push(action),
    {
        self.actions.push(action);
        Ok(())
    }
}

/// Launcher/Dock model error.
#[derive(Debug, Clone, PartialEq, Eq)]
pub enum ShellModelError {
    /// The selected app is not in the local launcher catalog.
    UnknownApplication(String),
    /// The selected app has no observed running instance for this session.
    NotRunning(String),
    /// The permission service did not accept the typed request.
    Authorization(String),
    /// The installed session adapter could not perform the typed action.
    Desktop(DesktopActionError),
}

/// Authorization outcome displayed by launcher and search UI. Only
/// `Performed` means an installed desktop adapter accepted a request;
/// `AwaitingConsent` and `Denied` never reach it.
#[derive(Debug, Clone, Copy, PartialEq, Eq, Structural)]
pub enum ActionOutcome {
    /// An authorized action was submitted to the desktop adapter.
    Performed,
    /// A trusted consent surface must resolve this request first.
    AwaitingConsent,
    /// Permission policy denied the request.
    Denied,
}

/// What the authorization service answered to a launch request.
#[derive(Debug, Clone, Copy, PartialEq, Eq, Structural)]
pub enum LaunchVerdict {
    Authorized,
    AwaitingConsent,
    Denied,
}

/// A typed, attributed request for the authorization service.
#[derive(Debug, Clone, PartialEq, Eq)]
pub struct ShellActionRequest {
    /// The trusted shell's own identity.
    pub caller: String,
    pub source: ActionSource,
    pub action: SystemAction,
}

/// A dock entry.
#[derive(Debug, Clone, PartialEq, Eq)]
pub struct DockItem {
    /// Launcher catalog metadata.
    pub entry: AppCatalogEntry,
    /// Whether the user pinned this item.
    pub pinned: bool,
    /// Whether a trusted session observer reports it running.
    pub running: bool,
}

impl View for DockItem {
    type V = ((Seq<char>, Seq<char>, Seq<Seq<char>>), bool, bool);

    open spec fn view(&self) -> Self::V {
        (self.entry@, self.pinned, self.running)
    }
}

/// The observed running state of an app id (`false` when never observed).
pub open spec fn running_flag(running: Seq<(String, bool)>, id: Seq<char>) -> bool {
    exists|i: int| 0 <= i < running.len() && #[trigger] running[i].0@ == id && running[i].1
}

/// Whether the observed states are kept in strictly ascending app id order.
pub open spec fn ascending_ids(running: Seq<(String, bool)>) -> bool {
    forall|i: int, j: int|
        0 <= i < j < running.len() ==> seq_lt(#[trigger] running[i].0@, #[trigger] running[j].0@)
}

/// The entry views of the last entry for each app id, as indexing them in
/// order leaves them.
pub open spec fn last_entry(entries: Seq<AppCatalogEntry>, id: Seq<char>) -> Option<
    (Seq<char>, Seq<char>, Seq<Seq<char>>),
>
    decreases entries.len(),
{
    if entries.len() == 0 {
        None
    } else if entries.last().identity.app_id@ == id {
        Some(entries.last()@)
    } else {
        last_entry(entries.drop_last(), id)
    }
}

/// The spellings of `ids`, in order.
pub open spec fn pin_names(ids: Seq<String>) -> Seq<Seq<char>> {
    ids.map_values(|id: String| id@)
}

/// Whether some id in `ids` spells `id`.
pub open spec fn lists(ids: Seq<String>, id: Seq<char>) -> bool {
    exists|i: int| 0 <= i < ids.len() && #[trigger] ids[i]@ == id
}

/// Running app ids not pinned, in the order observed entries are kept.
pub open spec fn running_extras(pinned: Seq<String>, running: Seq<(String, bool)>) -> Seq<Seq<char>>
    decreases running.len(),
{
    if running.len() == 0 {
        Seq::empty()
    } else {
        let earlier = running_extras(pinned, running.drop_last());
        if running.last().1 && !lists(pinned, running.last().0@) {
            earlier.push(running.last().0@)
        } else {
            earlier
        }
    }
}

/// The dock for candidate ids: each cataloged one, with its pin and running
/// state; ids missing from the catalog are skipped.
pub open spec fn dock_view(
    ids: Seq<Seq<char>>,
    entries: Seq<AppCatalogEntry>,
    pinned: Seq<String>,
    running: Seq<(String, bool)>,
) -> Seq<((Seq<char>, Seq<char>, Seq<Seq<char>>), bool, bool)>
    decreases ids.len(),
{
    if ids.len() == 0 {
        Seq::empty()
    } else {
        let earlier = dock_view(ids.drop_last(), entries, pinned, running);
        match catalog_lookup(entries, ids.last()) {
            Some(entry) => earlier.push(
                (entry, lists(pinned, ids.last()), running_flag(running, ids.last())),
            ),
            None => earlier,
        }
    }
}

/// Dock and Launcher controller. Launch requests go through the
/// authorization service; `D` is the only component permitted to attempt a
/// real desktop action.
#[derive(Debug)]
pub struct ShellLauncher<D: DesktopActionAdapter> {
    desktop: D,
    index: LocalSearchIndex,
    pinned: Vec<String>,
    running: Vec<(String, bool)>,
}

impl<D: DesktopActionAdapter> ShellLauncher<D> {
    /// The model's internal invariant: observed running states are kept in
    /// strictly ascending app id order.
    pub closed spec fn well_formed(&self) -> bool {
        ascending_ids(self.running@)
    }

    /// The catalog index.
    pub closed spec fn index_spec(&self) -> LocalSearchIndex {
        self.index
    }

    /// The pinned app ids, in pin order.
    pub closed spec fn pinned_spec(&self) -> Seq<String> {
        self.pinned@
    }

    /// The observed running states, in observation order of first sighting.
    pub closed spec fn running_spec(&self) -> Seq<(String, bool)> {
        self.running@
    }

    /// The desktop adapter.
    pub closed spec fn desktop_spec(&self) -> D {
        self.desktop
    }

    /// Create the shell model from an explicit local application catalog;
    /// a later entry for an app id replaces an earlier one.
    pub fn new(desktop: D, entries: Vec<AppCatalogEntry>) -> (launcher: Self)
        ensures
            launcher.desktop_spec() == desktop,
            launcher.pinned_spec().len() == 0,
            launcher.running_spec().len() == 0,
            launcher.well_formed(),
            forall|id: Seq<char>| #[trigger] launcher.index_spec().lookup(id) == last_entry(entries@, id),
    {
        let mut index = LocalSearchIndex::new();
        let mut i: usize = 0;
        while i < entries.len()
            invariant
                i <= entries@.len(),
                forall|id: Seq<char>| #[trigger] index.lookup(id) == last_entry(entries@.take(i as int), id),
            decreases entries@.len() - i,
        {
            let entry = entries[i].clone();
            index.upsert(entry);
            proof {
                assert(entries@.take(i + 1).drop_last() =~= entries@.take(i as int));
                assert forall|id: Seq<char>| #[trigger] index.lookup(id) == last_entry(
                    entries@.take(i + 1),
                    id,
                ) by {}
            }
            i = i + 1;
        }
        proof {
            assert(entries@.take(i as int) =~= entries@);
        }
        ShellLauncher { desktop, index, pinned: Vec::new(), running: Vec::new() }
    }

    /// Borrow the adapter after operations have been recorded.
    pub fn desktop(&self) -> (desktop: &D)
        ensures
            *desktop == self.desktop_spec(),
    {
        &self.desktop
    }

    /// Query the local-only application catalog.
    pub fn search(&self, query: &str, limit: usize) -> (results: Vec<SearchResult>)
        ensures
            ({
                let q = normalized(query@);
                let found = search_matches(self.index_spec().entries_spec(), q);
                if q.len() == 0 || limit == 0 {
                    results@.len() == 0
                } else {
                    &&& results@.len() == result_count(limit, found.len() as int)
                    &&& views(results@) == ranked_matches(self.index_spec().entries_spec(), q).take(
                        result_count(limit, found.len() as int),
                    )
                }
            }),
    {
        self.index.query(query, limit)
    }

    fn require_known(&self, app_id: &str) -> (result: Result<(), ShellModelError>)
        ensures
            result is Ok <==> self.index_spec().lookup(app_id@) is Some,
            result matches Err(e) ==> e matches ShellModelError::UnknownApplication(id) && id@
                == app_id@,
    {
        match self.index.get(app_id) {
            Some(_) => Ok(()),
            None => Err(ShellModelError::UnknownApplication(String::from_str(app_id))),
        }
    }

    fn running_state(&self, app_id: &str) -> (running: bool)
        requires
            self.well_formed(),
        ensures
            running == running_flag(self.running@, app_id@),
    {
        let mut i: usize = 0;
        while i < self.running.len()
            invariant
                i <= self.running@.len(),
                ascending_ids(self.running@),
                forall|j: int| 0 <= j < i ==> #[trigger] self.running@[j].0@ != app_id@,
            decreases self.running@.len() - i,
        {
            if crate::text::str_eq(self.running[i].0.as_str(), app_id) {
                proof {
                    assert forall|j: int| 0 <= j < self.running@.len() && j != i implies #[trigger] self.running@[j].0@
                        != app_id@ by {
                        if j < i {
                        } else {
                            assert(seq_lt(self.running@[i as int].0@, self.running@[j].0@));
                            lemma_seq_lt_trichotomy(self.running@[i as int].0@, self.running@[j].0@);
                        }
                    }
                }
                return self.running[i].1;
            }
            i = i + 1;
        }
        false
    }

    fn is_pinned(&self, app_id: &str) -> (pinned: bool)
        ensures
            pinned == lists(self.pinned@, app_id@),
    {
        let mut i: usize = 0;
        while i < self.pinned.len()
            invariant
                i <= self.pinned@.len(),
                forall|j: int| 0 <= j < i ==> #[trigger] self.pinned@[j]@ != app_id@,
            decreases self.pinned@.len() - i,
        {
            if crate::text::str_eq(self.pinned[i].as_str(), app_id) {
                return true;
            }
            i = i + 1;
        }
        false
    }

    /// Pin an application without changing process state; pinning twice
    /// keeps one pin.
    pub fn pin(&mut self, app_id: &str) -> (result: Result<(), ShellModelError>)
        requires
            old(self).well_formed(),
        ensures
            final(self).well_formed(),
            final(self).index_spec() == old(self).index_spec(),
            final(self).running_spec() == old(self).running_spec(),
            final(self).desktop_spec() == old(self).desktop_spec(),
            old(self).index_spec().lookup(app_id@) is None ==> (result matches Err(
                ShellModelError::UnknownApplication(id),
            ) && id@ == app_id@ && final(self).pinned_spec() == old(self).pinned_spec()),
            old(self).index_spec().lookup(app_id@) is Some ==> result is Ok && if lists(
                old(self).pinned_spec(),
                app_id@,
            ) {
                final(self).pinned_spec() == old(self).pinned_spec()
            } else {
                final(self).pinned_spec().len() == old(self).pinned_spec().len() + 1
                    && final(self).pinned_spec().drop_last() == old(self).pinned_spec()
                    && final(self).pinned_spec().last()@ == app_id@
            },
    {
        self.require_known(app_id)?;
        if !self.is_pinned(app_id) {
            let ghost before = self.pinned@;
            self.pinned.push(String::from_str(app_id));
            proof {
                assert(self.pinned@.drop_last() =~= before);
            }
        }
        Ok(())
    }

    /// Remove a user pin. Running items remain visible in the dock.
    pub fn unpin(&mut self, app_id: &str)
        requires
            old(self).well_formed(),
        ensures
            final(self).well_formed(),
            final(self).index_spec() == old(self).index_spec(),
            final(self).running_spec() == old(self).running_spec(),
            final(self).desktop_spec() == old(self).desktop_spec(),
            !lists(final(self).pinned_spec(), app_id@),
            forall|id: Seq<char>|
                id != app_id@ ==> (lists(final(self).pinned_spec(), id) <==> lists(
                    old(self).pinned_spec(),
                    id,
                )),
            pin_names(final(self).pinned_spec()) == pin_names(old(self).pinned_spec()).filter(
                |id: Seq<char>| id != app_id@,
            ),
    {
        let ghost keep = |id: Seq<char>| id != app_id@;
        let mut kept: Vec<String> = Vec::new();
        let mut i: usize = 0;
        while i < self.pinned.len()
            invariant
                i <= self.pinned@.len(),
                !lists(kept@, app_id@),
                forall|id: Seq<char>|
                    id != app_id@ ==> (lists(kept@, id) <==> lists(self.pinned@.take(i as int), id)),
                keep == (|id: Seq<char>| id != app_id@),
                pin_names(kept@) == pin_names(self.pinned@.take(i as int)).filter(keep),
            decreases self.pinned@.len() - i,
        {
            let ghost before = kept@;
            proof {
                assert(pin_names(self.pinned@.take(i + 1)) =~= pin_names(self.pinned@.take(i as int)).push(
                    self.pinned@[i as int]@,
                ));
                pin_names(self.pinned@.take(i as int)).lemma_filter_push(self.pinned@[i as int]@, keep);
            }
            if !crate::text::str_eq(self.pinned[i].as_str(), app_id) {
                kept.push(self.pinned[i].clone());
            }
            proof {
                let taken = self.pinned@.take(i + 1);
                assert forall|id: Seq<char>| id != app_id@ implies (lists(kept@, id) <==> lists(
                    taken,
                    id,
                )) by {
                    if lists(taken, id) {
                        let j = choose|j: int| 0 <= j < taken.len() && #[trigger] taken[j]@ == id;
                        if j < i {
                            assert(self.pinned@.take(i as int)[j] == taken[j]);
                            assert(lists(self.pinned@.take(i as int), id));
                            assert(lists(before, id));
                            let k = choose|k: int| 0 <= k < before.len() && #[trigger] before[k]@ == id;
                            assert(kept@[k] == before[k]);
                        } else {
                            assert(kept@.last()@ == id);
                        }
                    }
                    if lists(kept@, id) {
                        let k = choose|k: int| 0 <= k < kept@.len() && #[trigger] kept@[k]@ == id;
                        if k < before.len() {
                            assert(kept@[k] == before[k]);
                            assert(lists(before, id));
                            assert(lists(self.pinned@.take(i as int), id));
                            let j = choose|j: int| 0 <= j < i && #[trigger] self.pinned@.take(i as int)[j]@ == id;
                            assert(taken[j] == self.pinned@.take(i as int)[j]);
                        } else {
                            assert(taken[i as int]@ == id);
                        }
                    }
                }
                assert forall|k: int| 0 <= k < kept@.len() implies #[trigger] kept@[k]@ != app_id@ by {
                    if k < before.len() {
                        assert(kept@[k] == before[k]);
                    }
                }
            }
            proof {
                assert(pin_names(kept@) =~= if keep(self.pinned@[i as int]@) {
                    pin_names(before).push(self.pinned@[i as int]@)
                } else {
                    pin_names(before)
                });
            }
            i = i + 1;
        }
        proof {
            assert(self.pinned@.take(i as int) =~= self.pinned@);
        }
        self.pinned = kept;
    }

    /// Record a session-observed running state. This does not claim the app
    /// was launched by this shell; it is supplied by an integration.
    pub fn observe_running(&mut self, app_id: String, running: bool)
        requires
            old(self).well_formed(),
        ensures
            final(self).well_formed(),
            final(self).index_spec() == old(self).index_spec(),
            final(self).pinned_spec() == old(self).pinned_spec(),
            final(self).desktop_spec() == old(self).desktop_spec(),
            forall|id: Seq<char>|
                #[trigger] running_flag(final(self).running_spec(), id) == if id == app_id@ {
                    running
                } else {
                    running_flag(old(self).running_spec(), id)
                },
    {
        let ghost before = self.running@;
        let ghost key = app_id@;
        let mut p: usize = 0;
        while p < self.running.len()
            invariant
                p <= self.running@.len(),
                self.running@ == before,
                key == app_id@,
                forall|j: int| 0 <= j < p ==> seq_lt(#[trigger] before[j].0@, key),
            ensures
                p <= self.running@.len(),
                forall|j: int| 0 <= j < p ==> seq_lt(#[trigger] before[j].0@, key),
                p < self.running@.len() ==> !seq_lt(before[p as int].0@, key),
            decreases self.running@.len() - p,
        {
            if !str_lt(self.running[p].0.as_str(), app_id.as_str()) {
                break;
            }
            p = p + 1;
        }
        let replace = p < self.running.len() && str_eq(self.running[p].0.as_str(), app_id.as_str());
        proof {
            assert forall|j: int| p <= j < before.len() && !(replace && j == p) implies seq_lt(key, #[trigger] before[j].0@) by {
                if j == p {
                    lemma_seq_lt_trichotomy(before[j].0@, key);
                } else {
                    lemma_seq_lt_trichotomy(before[p as int].0@, key);
                    if replace {
                        assert(seq_lt(before[p as int].0@, before[j].0@));
                    } else {
                        assert(seq_lt(before[p as int].0@, before[j].0@));
                        lemma_seq_lt_transitive(key, before[p as int].0@, before[j].0@);
                    }
                }
            }
        }
        let mut states: Vec<(String, bool)> = Vec::new();
        std::mem::swap(&mut states, &mut self.running);
        if replace {
            states.set(p, (app_id, running));
        } else {
            states.insert(p, (app_id, running));
        }
        proof {
            let after = states@;
            let skip: int = if replace { 1 } else { 0 };
            assert(after.len() == before.len() + 1 - skip);
            assert forall|k: int| 0 <= k < after.len() implies #[trigger] after[k] == if k < p {
                before[k]
            } else if k == p {
                (after[k].0, running)
            } else {
                before[k - 1 + skip]
            } by {}
            assert(after[p as int].0@ == key);
            assert forall|a: int, b: int| 0 <= a < b < after.len() implies seq_lt(
                #[trigger] after[a].0@,
                #[trigger] after[b].0@,
            ) by {
                if b < p {
                } else if b == p {
                } else if a < p {
                    assert(seq_lt(before[a].0@, key));
                    assert(seq_lt(key, before[b - 1 + skip].0@));
                    lemma_seq_lt_transitive(before[a].0@, key, before[b - 1 + skip].0@);
                } else if a == p {
                    assert(seq_lt(key, before[b - 1 + skip].0@));
                } else {
                    assert(seq_lt(before[a - 1 + skip].0@, before[b - 1 + skip].0@));
                }
            }
            assert forall|id: Seq<char>| #[trigger] running_flag(after, id) == if id == key {
                running
            } else {
                running_flag(before, id)
            } by {
                if id == key {
                    if running {
                        assert(after[p as int].0@ == id && after[p as int].1);
                    }
                    assert forall|k: int| 0 <= k < after.len() && k != p implies #[trigger] after[k].0@ != id by {
                        if k < p {
                            lemma_seq_lt_trichotomy(before[k].0@, key);
                        } else {
                            lemma_seq_lt_trichotomy(key, before[k - 1 + skip].0@);
                        }
                    }
                } else {
                    if running_flag(before, id) {
                        let w = choose|w: int| 0 <= w < before.len() && #[trigger] before[w].0@ == id && before[w].1;
                        let v = if w < p { w } else if replace { w } else { w + 1 };
                        assert(after[v] == before[w]);
                    }
                    if running_flag(after, id) {
                        let v = choose|v: int| 0 <= v < after.len() && #[trigger] after[v].0@ == id && after[v].1;
                        assert(v != p);
                        let w = if v < p { v } else { v - 1 + skip };
                        assert(after[v] == before[w]);
                    }
                }
            }
        }
        self.running = states;
    }

    /// Pins first, in pin order, then running applications not pinned, in
    /// app id order; each with its catalog entry, pin, and running state.
    /// Ids missing from the catalog are skipped.
    pub fn dock_items(&self) -> (items: Vec<DockItem>)
        requires
            self.well_formed(),
        ensures
            views(items@) == dock_view(
                self.pinned_spec().map_values(|id: String| id@) + running_extras(
                    self.pinned_spec(),
                    self.running_spec(),
                ),
                self.index_spec().entries_spec(),
                self.pinned_spec(),
                self.running_spec(),
            ),
    {
        let mut ids: Vec<String> = Vec::new();
        let mut i: usize = 0;
        while i < self.pinned.len()
            invariant
                i <= self.pinned@.len(),
                ids@.map_values(|id: String| id@) == self.pinned@.take(i as int).map_values(
                    |id: String| id@,
                ),
            decreases self.pinned@.len() - i,
        {
            let ghost before = ids@;
            ids.push(self.pinned[i].clone());
            proof {
                assert(ids@ == before.push(self.pinned@[i as int]));
                assert(self.pinned@.take(i + 1) =~= self.pinned@.take(i as int).push(self.pinned@[i as int]));
                assert(ids@.map_values(|id: String| id@) =~= before.map_values(|id: String| id@).push(
                    self.pinned@[i as int]@,
                ));
                assert(self.pinned@.take(i + 1).map_values(|id: String| id@) =~= self.pinned@.take(
                    i as int,
                ).map_values(|id: String| id@).push(self.pinned@[i as int]@));
            }
            i = i + 1;
        }
        proof {
            assert(self.pinned@.take(i as int) =~= self.pinned@);
        }
        let ghost pinned_ids = ids@.map_values(|id: String| id@);
        let mut r: usize = 0;
        while r < self.running.len()
            invariant
                r <= self.running@.len(),
                pinned_ids == self.pinned@.map_values(|id: String| id@),
                ids@.map_values(|id: String| id@) == pinned_ids + running_extras(
                    self.pinned@,
                    self.running@.take(r as int),
                ),
            decreases self.running@.len() - r,
        {
            proof {
                assert(self.running@.take(r + 1).drop_last() =~= self.running@.take(r as int));
            }
            let ghost before = ids@;
            if self.running[r].1 && !self.is_pinned(self.running[r].0.as_str()) {
                ids.push(self.running[r].0.clone());
                proof {
                    assert(ids@.map_values(|id: String| id@) =~= before.map_values(|id: String| id@).push(
                        self.running@[r as int].0@,
                    ));
                }
            }
            r = r + 1;
        }
        proof {
            assert(self.running@.take(r as int) =~= self.running@);
        }
        let ghost all_ids = ids@.map_values(|id: String| id@);
        let mut items: Vec<DockItem> = Vec::new();
        let mut k: usize = 0;
        while k < ids.len()
            invariant
                k <= ids@.len(),
                self.well_formed(),
                all_ids == ids@.map_values(|id: String| id@),
                views(items@) == dock_view(
                    all_ids.take(k as int),
                    self.index.entries_spec(),
                    self.pinned@,
                    self.running@,
                ),
            decreases ids@.len() - k,
        {
            proof {
                assert(all_ids.take(k + 1).drop_last() =~= all_ids.take(k as int));
                assert(all_ids.take(k + 1).last() == ids@[k as int]@);
            }
            let ghost before = items@;
            match self.index.get(ids[k].as_str()) {
                Some(entry) => {
                    let item = DockItem {
                        entry: entry.clone(),
                        pinned: self.is_pinned(ids[k].as_str()),
                        running: self.running_state(ids[k].as_str()),
                    };
                    items.push(item);
                    proof {
                        assert(views(items@) =~= views(before).push(items@.last()@));
                    }
                },
                None => {},
            }
            k = k + 1;
        }
        proof {
            assert(all_ids.take(k as int) =~= all_ids);
        }
        items
    }

    /// The typed request a launch of a cataloged application sends to the
    /// authorization service; an unknown application is refused first.
    pub fn launch_request(&self, app_id: &str) -> (result: Result<ShellActionRequest, ShellModelError>)
        ensures
            self.index_spec().lookup(app_id@) is None ==> (result matches Err(
                ShellModelError::UnknownApplication(id),
            ) && id@ == app_id@),
            self.index_spec().lookup(app_id@) is Some ==> (result matches Ok(request)
                && request.caller@ == SHELL_APP_ID@ && request.source == ActionSource::ShellLauncher
                && (request.action matches SystemAction::LaunchApplication { app_id: id } && id@
                == app_id@)),
    {
        self.require_known(app_id)?;
        Ok(
            ShellActionRequest {
                caller: String::from_str(SHELL_APP_ID),
                source: ActionSource::ShellLauncher,
                action: SystemAction::LaunchApplication { app_id: String::from_str(app_id) },
            },
        )
    }

    /// Act on the authorization service's answer to a launch request. Only
    /// an authorization reaches the desktop adapter, with a launch of exactly
    /// this application; consent and denial are reported without any desktop
    /// side effect.
    pub fn complete_launch(&mut self, app_id: &str, verdict: Result<LaunchVerdict, String>) -> (result:
        Result<ActionOutcome, ShellModelError>)
        requires
            old(self).well_formed(),
        ensures
            final(self).well_formed(),
            final(self).index_spec() == old(self).index_spec(),
            final(self).pinned_spec() == old(self).pinned_spec(),
            final(self).running_spec() == old(self).running_spec(),
            match verdict {
                Err(reason) => result == Err::<ActionOutcome, ShellModelError>(
                    ShellModelError::Authorization(reason),
                ) && final(self).desktop_spec() == old(self).desktop_spec(),
                Ok(LaunchVerdict::AwaitingConsent) => result == Ok::<ActionOutcome, ShellModelError>(
                    ActionOutcome::AwaitingConsent,
                ) && final(self).desktop_spec() == old(self).desktop_spec(),
                Ok(LaunchVerdict::Denied) => result == Ok::<ActionOutcome, ShellModelError>(
                    ActionOutcome::Denied,
                ) && final(self).desktop_spec() == old(self).desktop_spec(),
                Ok(LaunchVerdict::Authorized) => carried_out(
                    old(self).desktop_spec().requested(),
                    final(self).desktop_spec().requested(),
                    DesktopActionKind::Launch,
                    app_id@,
                ) && ((result == Ok::<ActionOutcome, ShellModelError>(ActionOutcome::Performed)
                    && carried_out(
                    old(self).desktop_spec().performed(),
                    final(self).desktop_spec().performed(),
                    DesktopActionKind::Launch,
                    app_id@,
                )) || (result matches Err(ShellModelError::Desktop(_))
                    && final(self).desktop_spec().performed() == old(self).desktop_spec().performed())),
            },
    {
        let verdict = match verdict {
            Ok(verdict) => verdict,
            Err(reason) => return Err(ShellModelError::Authorization(reason)),
        };
        match verdict {
            LaunchVerdict::Authorized => {
                let action = DesktopAction::Launch(String::from_str(app_id));
                let ghost before = self.desktop.performed();
                let ghost asked = self.desktop.requested();
                match self.desktop.perform(action) {
                    Ok(()) => {
                        proof {
                            assert(self.desktop.performed().drop_last() =~= before);
                            assert(self.desktop.requested().drop_last() =~= asked);
                        }
                        Ok(ActionOutcome::Performed)
                    },
                    Err(error) => {
                        proof {
                            assert(self.desktop.requested().drop_last() =~= asked);
                        }
                        Err(ShellModelError::Desktop(error))
                    },
                }
            },
            LaunchVerdict::AwaitingConsent => Ok(ActionOutcome::AwaitingConsent),
            LaunchVerdict::Denied => Ok(ActionOutcome::Denied),
        }
    }

    /// Request session activation (or, with `close`, closing) of an observed
    /// running app. An app not observed running is refused without any
    /// desktop side effect; no fallback launch is attempted.
    fn act_on_running(&mut self, app_id: &str, close: bool) -> (result: Result<(), ShellModelError>)
        requires
            old(self).well_formed(),
        ensures
            final(self).well_formed(),
            final(self).index_spec() == old(self).index_spec(),
            final(self).pinned_spec() == old(self).pinned_spec(),
            final(self).running_spec() == old(self).running_spec(),
            !running_flag(old(self).running_spec(), app_id@) ==> (result matches Err(
                ShellModelError::NotRunning(id),
            ) && id@ == app_id@ && final(self).desktop_spec() == old(self).desktop_spec()),
            running_flag(old(self).running_spec(), app_id@) ==> carried_out(
                old(self).desktop_spec().requested(),
                final(self).desktop_spec().requested(),
                if close {
                    DesktopActionKind::Close
                } else {
                    DesktopActionKind::Activate
                },
                app_id@,
            ) && ((result is Ok && carried_out(
                old(self).desktop_spec().performed(),
                final(self).desktop_spec().performed(),
                if close {
                    DesktopActionKind::Close
                } else {
                    DesktopActionKind::Activate
                },
                app_id@,
            )) || (result matches Err(ShellModelError::Desktop(_)) && final(self).desktop_spec().performed()
                == old(self).desktop_spec().performed())),
    {
        if !self.running_state(app_id) {
            return Err(ShellModelError::NotRunning(String::from_str(app_id)));
        }
        let action = if close {
            DesktopAction::Close(String::from_str(app_id))
        } else {
            DesktopAction::Activate(String::from_str(app_id))
        };
        let ghost before = self.desktop.performed();
        let ghost asked = self.desktop.requested();
        match self.desktop.perform(action) {
            Ok(()) => {
                proof {
                    assert(self.desktop.performed().drop_last() =~= before);
                    assert(self.desktop.requested().drop_last() =~= asked);
                }
                Ok(())
            },
            Err(error) => {
                proof {
                    assert(self.desktop.requested().drop_last() =~= asked);
                }
                Err(ShellModelError::Desktop(error))
            },
        }
    }

    /// Request session activation for an observed running app.
    pub fn activate(&mut self, app_id: &str) -> (result: Result<(), ShellModelError>)
        requires
            old(self).well_formed(),
        ensures
            final(self).well_formed(),
            final(self).running_spec() == old(self).running_spec(),
            !running_flag(old(self).running_spec(), app_id@) ==> (result matches Err(
                ShellModelError::NotRunning(id),
            ) && id@ == app_id@ && final(self).desktop_spec() == old(self).desktop_spec()),
            running_flag(old(self).running_spec(), app_id@) ==> carried_out(
                old(self).desktop_spec().requested(),
                final(self).desktop_spec().requested(),
                DesktopActionKind::Activate,
                app_id@,
            ) && ((result is Ok && carried_out(
                old(self).desktop_spec().performed(),
                final(self).desktop_spec().performed(),
                DesktopActionKind::Activate,
                app_id@,
            )) || (result matches Err(ShellModelError::Desktop(_)) && final(self).desktop_spec().performed()
                == old(self).desktop_spec().performed())),
    {
        self.act_on_running(app_id, false)
    }

    /// Request closing an observed running app through the session adapter.
    pub fn close(&mut self, app_id: &str) -> (result: Result<(), ShellModelError>)
        requires
            old(self).well_formed(),
        ensures
            final(self).well_formed(),
            final(self).running_spec() == old(self).running_spec(),
            !running_flag(old(self).running_spec(), app_id@) ==> (result matches Err(
                ShellModelError::NotRunning(id),
            ) && id@ == app_id@ && final(self).desktop_spec() == old(self).desktop_spec()),
            running_flag(old(self).running_spec(), app_id@) ==> carried_out(
                old(self).desktop_spec().requested(),
                final(self).desktop_spec().requested(),
                DesktopActionKind::Close,
                app_id@,
            ) && ((result is Ok && carried_out(
                old(self).desktop_spec().performed(),
                final(self).desktop_spec().performed(),
                DesktopActionKind::Close,
                app_id@,
            )) || (result matches Err(ShellModelError::Desktop(_)) && final(self).desktop_spec().performed()
                == old(self).desktop_spec().performed())),
    {
        self.act_on_running(app_id, true)
    }
}

/// A sequence contains each of its prefixes.
proof fn lemma_prefix_contained(text: Seq<char>, query: Seq<char>)
    requires
        query.is_prefix_of(text),
    ensures
        contains_seq(text, query),
{
    assert(text.subrange(0, query.len() as int) =~= query);
    assert(crate::text::occurs_at(text, query, 0));
}

/// An entry is found by a query exactly when its normalized title, one of
/// its normalized keywords, or its app id contains the query; what does
/// not contain it anywhere is never found.
pub proof fn lemma_found_exactly_when_contained(entry: (Seq<char>, Seq<char>, Seq<Seq<char>>), query: Seq<char>)
    ensures
        score_of(entry, query) is Some <==> (contains_seq(normalized(entry.1), query) || (exists|k: int|
            0 <= k < entry.2.len() && contains_seq(normalized(#[trigger] entry.2[k]), query))
            || contains_seq(entry.0, query)),
{
    let title = normalized(entry.1);
    if title == query {
        lemma_prefix_contained(title, query);
    }
    if query.is_prefix_of(title) {
        lemma_prefix_contained(title, query);
    }
    if query.is_prefix_of(entry.0) {
        lemma_prefix_contained(entry.0, query);
    }
    if keyword_prefixed(entry.2, query) {
        let k = choose|k: int| 0 <= k < entry.2.len() && query.is_prefix_of(normalized(#[trigger] entry.2[k]));
        lemma_prefix_contained(normalized(entry.2[k]), query);
    }
}

/// An entry whose title and keywords do not contain the query and whose app
/// id does not start with it, but whose app id contains it, is found as an
/// app-id substring match with score 100.
pub proof fn lemma_app_id_substring_found(entry: (Seq<char>, Seq<char>, Seq<Seq<char>>), query: Seq<char>)
    requires
        !contains_seq(normalized(entry.1), query),
        forall|k: int| 0 <= k < entry.2.len() ==> !contains_seq(normalized(#[trigger] entry.2[k]), query),
        !query.is_prefix_of(entry.0),
        contains_seq(entry.0, query),
    ensures
        score_of(entry, query) == Some((SearchMatch::AppId, 100u16)),
{
    let title = normalized(entry.1);
    if title == query || query.is_prefix_of(title) {
        lemma_prefix_contained(title, query);
    }
    if keyword_prefixed(entry.2, query) {
        let k = choose|k: int| 0 <= k < entry.2.len() && query.is_prefix_of(normalized(#[trigger] entry.2[k]));
        lemma_prefix_contained(normalized(entry.2[k]), query);
    }
}

/// The entry recorded for an id carries that id.
proof fn lemma_lookup_carries_id(entries: Seq<AppCatalogEntry>, id: Seq<char>)
    ensures
        catalog_lookup(entries, id) matches Some(entry) ==> entry.0 == id,
{
    lemma_first_index(entries, has_app_id(id));
}

/// Every dock item reports the pin list and the running observations
/// faithfully: it is pinned exactly when its app id is in the pin list, and
/// running exactly when it was last observed running. An application that
/// is in the dock only because it runs is never reported pinned.
pub proof fn lemma_dock_flags_are_faithful(
    ids: Seq<Seq<char>>,
    entries: Seq<AppCatalogEntry>,
    pinned: Seq<String>,
    running: Seq<(String, bool)>,
)
    ensures
        forall|k: int|
            0 <= k < dock_view(ids, entries, pinned, running).len() ==> {
                let item = #[trigger] dock_view(ids, entries, pinned, running)[k];
                &&& item.1 == lists(pinned, item.0.0)
                &&& item.2 == running_flag(running, item.0.0)
            },
    decreases ids.len(),
{
    if ids.len() > 0 {
        lemma_dock_flags_are_faithful(ids.drop_last(), entries, pinned, running);
        lemma_lookup_carries_id(entries, ids.last());
        let earlier = dock_view(ids.drop_last(), entries, pinned, running);
        let all = dock_view(ids, entries, pinned, running);
        assert forall|k: int| 0 <= k < all.len() implies {
            let item = #[trigger] all[k];
            &&& item.1 == lists(pinned, item.0.0)
            &&& item.2 == running_flag(running, item.0.0)
        } by {
            if k < earlier.len() {
                assert(all[k] == earlier[k]);
            }
        }
    }
}

} // verus!
