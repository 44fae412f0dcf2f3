//! Notification Center model.
//!
//! The center owns focus, keyboard, and visibility behavior over the records
//! the notification service reports. Every lifecycle change goes through that
//! service: the center only names the typed request (dismiss this record,
//! invoke that action) and takes the service's new projection back.

use vstd::prelude::*;
use crate::seqs::{first_index, lemma_cycle_step, lemma_first_index, lemma_first_index_is};
use crate::sort::{pairwise_comparable, sort_ranked, strictly_sorted, views, Ranked};
use crate::accessibility::{
    copy_value, leaf_is, node_is, plain_state, value_text, AccessibilityNode, AccessibilityState,
    SemanticRole,
};
use crate::tokens::{panel_token_contract, panel_tokens, VisualTokenContract};
use crate::text::{
    decimal, lemma_seq_lt_transitive, lemma_seq_lt_trichotomy, push_decimal, seq_lt, str_eq, str_lt,
};

verus! {

/// Whether the center shows only active notifications or retained history.
#[derive(Debug, Clone, Copy, PartialEq, Eq, Structural)]
pub enum NotificationScope {
    /// Present notifications still eligible for transient display.
    Active,
    /// Active and dismissed notifications retained by the notification service.
    History,
}

impl Default for NotificationScope {
    fn default() -> (scope: Self)
        ensures
            scope == NotificationScope::Active,
    {
        NotificationScope::Active
    }
}

/// Keyboard input interpreted by the notification center.
#[derive(Debug, Clone, Copy, PartialEq, Eq, Structural)]
pub enum NotificationCenterKey {
    /// Focus the previous visible notification.
    ArrowUp,
    /// Focus the next visible notification.
    ArrowDown,
    /// Invoke the first declared action on the focused notification.
    Enter,
    /// Dismiss the focused active notification as a user action.
    Delete,
    /// Remove keyboard focus from the center.
    Escape,
}

/// Priority the notification service attributes to a record.
#[derive(Debug, Clone, Copy, PartialEq, Eq, Structural)]
pub enum NotificationUrgency {
    Low,
    Normal,
    Critical,
}

/// Rank of an urgency: critical sections come first.
pub open spec fn urgency_rank_of(urgency: NotificationUrgency) -> u8 {
    match urgency {
        NotificationUrgency::Low => 0,
        NotificationUrgency::Normal => 1,
        NotificationUrgency::Critical => 2,
    }
}

/// Rank of an urgency: critical sections come first.
pub fn urgency_rank(urgency: NotificationUrgency) -> (rank: u8)
    ensures
        rank == urgency_rank_of(urgency),
{
    match urgency {
        NotificationUrgency::Low => 0,
        NotificationUrgency::Normal => 1,
        NotificationUrgency::Critical => 2,
    }
}

/// Whether a record is still active or has been dismissed.
#[derive(Debug, Clone, Copy, PartialEq, Eq, Structural)]
pub enum NotificationLifecycle {
    Active,
    Dismissed,
}

/// One action an application declared on its notification.
#[derive(Debug, PartialEq, Eq)]
pub struct NotificationAction {
    pub id: String,
    pub label: String,
}

impl View for NotificationAction {
    type V = (Seq<char>, Seq<char>);

    /// `(id, label)`.
    open spec fn view(&self) -> Self::V {
        (self.id@, self.label@)
    }
}

impl Clone for NotificationAction {
    fn clone(&self) -> (copy: Self)
        ensures
            copy == *self,
    {
        NotificationAction { id: self.id.clone(), label: self.label.clone() }
    }
}

/// One record of the notification service's projection.
#[derive(Debug, PartialEq, Eq)]
pub struct NotificationRecord {
    /// Service-assigned identity.
    pub id: u64,
    /// Service sequence; a higher sequence is newer.
    pub sequence: u64,
    /// Attributed application.
    pub app_id: String,
    pub urgency: NotificationUrgency,
    pub summary: String,
    pub body: Option<String>,
    pub lifecycle: NotificationLifecycle,
    /// Declared actions, in declaration order.
    pub actions: Vec<NotificationAction>,
}

/// The section of the center a record belongs to.
#[derive(Debug, Clone, PartialEq, Eq)]
pub struct NotificationGroupKey {
    /// Application attributed by the notification service.
    pub app_id: String,
    /// Urgency section within one application's notifications.
    pub urgency: NotificationUrgency,
}

impl View for NotificationGroupKey {
    type V = (Seq<char>, NotificationUrgency);

    open spec fn view(&self) -> Self::V {
        (self.app_id@, self.urgency)
    }
}

/// The section key of a record.
pub open spec fn section_of(record: RecordView) -> (Seq<char>, NotificationUrgency) {
    (record.2, record.3)
}

/// Sections are ordered most urgent first, then by application id.
pub open spec fn section_precedes(
    a: (Seq<char>, NotificationUrgency),
    b: (Seq<char>, NotificationUrgency),
) -> bool {
    urgency_rank_of(a.1) > urgency_rank_of(b.1) || (a.1 == b.1 && seq_lt(a.0, b.0))
}

impl Ranked for NotificationGroupKey {
    open spec fn precedes(&self, other: &Self) -> bool {
        section_precedes(self@, other@)
    }

    proof fn lemma_precedes_strict(a: Self, b: Self) {
        lemma_seq_lt_trichotomy(a.app_id@, b.app_id@);
    }

    proof fn lemma_precedes_transitive(a: Self, b: Self, c: Self) {
        if a.urgency == b.urgency && b.urgency == c.urgency {
            lemma_seq_lt_transitive(a.app_id@, b.app_id@, c.app_id@);
        }
    }

    fn ranks_before(&self, other: &Self) -> (before: bool) {
        let mine = urgency_rank(self.urgency);
        let theirs = urgency_rank(other.urgency);
        mine > theirs || (mine == theirs && str_lt(self.app_id.as_str(), other.app_id.as_str()))
    }
}

/// One center section: its key and its records, newest first.
#[derive(Debug, Clone, PartialEq, Eq)]
pub struct NotificationGroup {
    /// Stable application and urgency section identity.
    pub key: NotificationGroupKey,
    /// Records ordered newest first by service sequence.
    pub records: Vec<NotificationRecord>,
}

/// Whether a record belongs to the section `key`.
pub open spec fn in_section(key: (Seq<char>, NotificationUrgency)) -> spec_fn(RecordView) -> bool {
    |record: RecordView| section_of(record) == key
}

/// Whether records are ordered newest first.
pub open spec fn newest_first(records: Seq<RecordView>) -> bool {
    forall|i: int, j: int|
        #![trigger records[i], records[j]]
        0 <= i < j < records.len() ==> records[i].1 >= records[j].1
}

/// `records` (newest first) with `record` inserted after every record at
/// least as new as it: before the first older one.
pub open spec fn insert_by_recency(records: Seq<RecordView>, record: RecordView) -> Seq<RecordView> {
    let at = first_index(records, |r: RecordView| r.1 < record.1);
    if at >= 0 {
        records.insert(at, record)
    } else {
        records.push(record)
    }
}

/// `records` ordered newest first, records of equal sequence keeping the
/// order in which they came.
pub open spec fn by_recency(records: Seq<RecordView>) -> Seq<RecordView>
    decreases records.len(),
{
    if records.len() == 0 {
        Seq::empty()
    } else {
        insert_by_recency(by_recency(records.drop_last()), records.last())
    }
}

/// Whether `key` is the section of `record`.
fn same_section(key: &NotificationGroupKey, record: &NotificationRecord) -> (same: bool)
    ensures
        same == (key@ == section_of(record@)),
{
    key.urgency == record.urgency && str_eq(key.app_id.as_str(), record.app_id.as_str())
}

/// The records of one section, newest first; records of equal sequence keep
/// their service order.
fn section_records(records: &Vec<NotificationRecord>, key: &NotificationGroupKey) -> (found: Vec<
    NotificationRecord,
>)
    ensures
        newest_first(record_views(found@)),
        record_views(found@).to_multiset() == record_views(records@).filter(in_section(key@)).to_multiset(),
        record_views(found@) == by_recency(record_views(records@).filter(in_section(key@))),
{
    broadcast use vstd::seq_lib::group_to_multiset_ensures;
    broadcast use vstd::seq_lib::to_multiset_insert;

    let ghost pred = in_section(key@);
    let mut found: Vec<NotificationRecord> = Vec::new();
    let mut i: usize = 0;
    proof {
        assert(record_views(records@).take(0).filter(pred) =~= Seq::<RecordView>::empty());
        assert(record_views(found@) =~= Seq::<RecordView>::empty());
    }
    while i < records.len()
        invariant
            i <= records@.len(),
            pred == in_section(key@),
            newest_first(record_views(found@)),
            record_views(found@).to_multiset() == record_views(records@).take(i as int).filter(pred).to_multiset(),
            record_views(found@) == by_recency(record_views(records@).take(i as int).filter(pred)),
        decreases records@.len() - i,
    {
        let ghost all = record_views(records@);
        proof {
            assert(all.take(i + 1) =~= all.take(i as int).push(all[i as int]));
            all.take(i as int).lemma_filter_push(all[i as int], pred);
        }
        if same_section(key, &records[i]) {
            let sequence = records[i].sequence;
            let mut at: usize = 0;
            while at < found.len() && found[at].sequence >= sequence
                invariant
                    at <= found@.len(),
                    forall|k: int| 0 <= k < at ==> #[trigger] found@[k].sequence >= sequence,
                decreases found@.len() - at,
            {
                at = at + 1;
            }
            let ghost before = record_views(found@);
            proof {
                let older = |r: RecordView| r.1 < all[i as int].1;
                assert forall|k: int| 0 <= k < before.len() && (at == found@.len() || k < at) implies !older(
                    #[trigger] before[k],
                ) by {
                    assert(before[k] == found@[k]@);
                }
                if at < found@.len() {
                    assert(before[at as int] == found@[at as int]@);
                    lemma_first_index_is(before, older, at as int);
                } else {
                    lemma_first_index_is(before, older, -1);
                    assert(before.insert(at as int, all[i as int]) =~= before.push(all[i as int]));
                }
                let f = all.take(i as int).filter(pred);
                assert(f.push(all[i as int]).drop_last() =~= f);
            }
            let copy = records[i].clone();
            found.insert(at, copy);
            proof {
                assert(record_views(found@) =~= before.insert(at as int, all[i as int]));
                assert(pred(all[i as int]));
                vstd::seq_lib::to_multiset_insert(before, at as int, all[i as int]);
                all.take(i as int).filter(pred).to_multiset_ensures();
                let now = record_views(found@);
                assert forall|a: int, b: int|
                    #![trigger now[a], now[b]]
                    0 <= a < b < now.len() implies now[a].1 >= now[b].1 by {
                    if b < at {
                        assert(before[a].1 >= before[b].1);
                    } else if b == at {
                        assert(found@[a].sequence >= sequence);
                    } else if a < at {
                        assert(found@[a].sequence >= sequence);
                        if b - 1 > at {
                            assert(before[at as int].1 >= before[b - 1].1);
                        }
                        assert(before[at as int].1 < sequence);
                    } else if a == at {
                        if b - 1 > at {
                            assert(before[at as int].1 >= before[b - 1].1);
                        }
                    } else {
                        assert(before[a - 1].1 >= before[b - 1].1);
                    }
                }
            }
        } else {
            proof {
                assert(!pred(all[i as int]));
            }
        }
        i = i + 1;
    }
    proof {
        assert(record_views(records@).take(i as int) =~= record_views(records@));
    }
    found
}

/// The plain content of keys.
pub open spec fn key_views(keys: Seq<NotificationGroupKey>) -> Seq<(Seq<char>, NotificationUrgency)> {
    keys.map_values(|key: NotificationGroupKey| key@)
}

/// The plain content of records.
pub open spec fn record_views(records: Seq<NotificationRecord>) -> Seq<RecordView> {
    records.map_values(|record: NotificationRecord| record@)
}

/// Whether some record belongs to section `key`.
pub open spec fn named_by_record(key: (Seq<char>, NotificationUrgency), records: Seq<RecordView>) -> bool {
    exists|k: int| 0 <= k < records.len() && section_of(#[trigger] records[k]) == key
}

/// Whether the section of `record` is among the keys.
pub open spec fn keyed(keys: Seq<(Seq<char>, NotificationUrgency)>, record: RecordView) -> bool {
    exists|i: int| 0 <= i < keys.len() && #[trigger] keys[i] == section_of(record)
}

/// Whether every key names the section of some record.
pub open spec fn keys_name_records(keys: Seq<(Seq<char>, NotificationUrgency)>, records: Seq<RecordView>) -> bool {
    forall|i: int| 0 <= i < keys.len() ==> named_by_record(#[trigger] keys[i], records)
}

/// Whether every record's section is among the keys.
pub open spec fn records_have_keys(keys: Seq<(Seq<char>, NotificationUrgency)>, records: Seq<RecordView>) -> bool {
    forall|k: int| 0 <= k < records.len() ==> keyed(keys, #[trigger] records[k])
}

/// The distinct section keys of the records, in order of first appearance.
fn section_keys(records: &Vec<NotificationRecord>) -> (keys: Vec<NotificationGroupKey>)
    ensures
        forall|i: int, j: int|
            #![trigger keys@[i], keys@[j]]
            0 <= i < j < keys@.len() ==> keys@[i]@ != keys@[j]@,
        keys_name_records(key_views(keys@), record_views(records@)),
        records_have_keys(key_views(keys@), record_views(records@)),
{
    let ghost all = record_views(records@);
    let mut keys: Vec<NotificationGroupKey> = Vec::new();
    let mut i: usize = 0;
    while i < records.len()
        invariant
            i <= records@.len(),
            all == record_views(records@),
            forall|a: int, b: int|
                #![trigger keys@[a], keys@[b]]
                0 <= a < b < keys@.len() ==> keys@[a]@ != keys@[b]@,
            keys_name_records(key_views(keys@), all),
            records_have_keys(key_views(keys@), all.take(i as int)),
        decreases records@.len() - i,
    {
        let mut j: usize = 0;
        while j < keys.len() && !same_section(&keys[j], &records[i])
            invariant
                i < records@.len(),
                j <= keys@.len(),
                forall|a: int| 0 <= a < j ==> #[trigger] keys@[a]@ != section_of(records@[i as int]@),
            decreases keys@.len() - j,
        {
            j = j + 1;
        }
        let ghost before = key_views(keys@);
        if j == keys.len() {
            keys.push(NotificationGroupKey { app_id: records[i].app_id.clone(), urgency: records[i].urgency });
            proof {
                let now = key_views(keys@);
                assert(now =~= before.push(section_of(all[i as int])));
                assert forall|a: int, b: int|
                    #![trigger keys@[a], keys@[b]]
                    0 <= a < b < keys@.len() implies keys@[a]@ != keys@[b]@ by {
                    if b == keys@.len() - 1 {
                        assert(keys@[a]@ != section_of(records@[i as int]@));
                    }
                }
                assert forall|a: int| 0 <= a < now.len() implies named_by_record(#[trigger] now[a], all) by {
                    if a < before.len() {
                        assert(now[a] == before[a]);
                    } else {
                        assert(section_of(all[i as int]) == now[a]);
                    }
                }
                assert forall|k: int| 0 <= k < i + 1 implies keyed(now, #[trigger] all.take(i + 1)[k]) by {
                    if k < i {
                        assert(all.take(i + 1)[k] == all.take(i as int)[k]);
                        assert(keyed(before, all.take(i as int)[k]));
                        let a = choose|a: int| 0 <= a < before.len() && #[trigger] before[a] == section_of(all.take(i as int)[k]);
                        assert(now[a] == before[a]);
                    } else {
                        assert(all.take(i + 1)[k] == all[i as int]);
                        assert(now[now.len() - 1] == section_of(all.take(i + 1)[k]));
                    }
                }
            }
        } else {
            proof {
                let now = key_views(keys@);
                assert(now[j as int] == section_of(all[i as int]));
                assert forall|k: int| 0 <= k < i + 1 implies keyed(now, #[trigger] all.take(i + 1)[k]) by {
                    if k < i {
                        assert(all.take(i + 1)[k] == all.take(i as int)[k]);
                        assert(now == before);
                        assert(keyed(before, all.take(i as int)[k]));
                    } else {
                        assert(all.take(i + 1)[k] == all[i as int]);
                        assert(now[j as int] == section_of(all.take(i + 1)[k]));
                    }
                }
            }
        }
        i = i + 1;
    }
    proof {
        assert(all.take(i as int) =~= all);
    }
    keys
}

/// Keys that agree as multisets of views name the same sections.
proof fn lemma_same_keys(
    a: Seq<NotificationGroupKey>,
    b: Seq<NotificationGroupKey>,
    records: Seq<RecordView>,
)
    requires
        views(a).to_multiset() == views(b).to_multiset(),
        keys_name_records(key_views(a), records),
        records_have_keys(key_views(a), records),
    ensures
        keys_name_records(key_views(b), records),
        records_have_keys(key_views(b), records),
{
    broadcast use vstd::seq_lib::group_to_multiset_ensures;

    let va = key_views(a);
    let vb = key_views(b);
    assert(va =~= views(a));
    assert(vb =~= views(b));
    va.to_multiset_ensures();
    vb.to_multiset_ensures();
    assert forall|i: int| 0 <= i < vb.len() implies named_by_record(#[trigger] vb[i], records) by {
        assert(vb.contains(vb[i]));
        assert(vb.to_multiset().count(vb[i]) > 0);
        assert(va.to_multiset().count(vb[i]) > 0);
        assert(va.contains(vb[i]));
        let x = choose|x: int| 0 <= x < va.len() && va[x] == vb[i];
        assert(named_by_record(va[x], records));
    }
    assert forall|k: int| 0 <= k < records.len() implies keyed(vb, #[trigger] records[k]) by {
        assert(keyed(va, records[k]));
        let x = choose|x: int| 0 <= x < va.len() && #[trigger] va[x] == section_of(records[k]);
        assert(va.contains(va[x]));
        assert(va.to_multiset().count(va[x]) > 0);
        assert(vb.to_multiset().count(va[x]) > 0);
        assert(vb.contains(va[x]));
        let y = choose|y: int| 0 <= y < vb.len() && vb[y] == va[x];
        assert(vb[y] == section_of(records[k]));
    }
    assert(keys_name_records(vb, records));
    assert(records_have_keys(vb, records));
}

/// The plain content of a record: `(id, sequence, app id, urgency,
/// summary, body, lifecycle, actions)`.
pub type RecordView = (
    u64,
    u64,
    Seq<char>,
    NotificationUrgency,
    Seq<char>,
    Option<Seq<char>>,
    NotificationLifecycle,
    Seq<(Seq<char>, Seq<char>)>,
);

impl View for NotificationRecord {
    type V = RecordView;

    open spec fn view(&self) -> RecordView {
        (
            self.id,
            self.sequence,
            self.app_id@,
            self.urgency,
            self.summary@,
            match self.body {
                Some(body) => Some(body@),
                None => None,
            },
            self.lifecycle,
            self.actions@.map_values(|a: NotificationAction| a@),
        )
    }
}

impl Clone for NotificationRecord {
    fn clone(&self) -> (copy: Self)
        ensures
            copy@ == self@,
    {
        let body = match &self.body {
            Some(body) => Some(body.clone()),
            None => None,
        };
        let actions = self.actions.clone();
        proof {
            assert(actions@.map_values(|a: NotificationAction| a@) =~= self.actions@.map_values(
                |a: NotificationAction| a@,
            ));
        }
        NotificationRecord {
            id: self.id,
            sequence: self.sequence,
            app_id: self.app_id.clone(),
            urgency: self.urgency,
            summary: self.summary.clone(),
            body,
            lifecycle: self.lifecycle,
            actions,
        }
    }
}

/// Error returned by a notification-center model operation.
#[derive(Debug, Clone, PartialEq, Eq)]
pub enum NotificationCenterError {
    /// The notification service failed the typed request.
    Service(String),
    /// A requested id is not currently represented in the selected scope.
    NotVisible(u64),
    /// The focused notification declares no actions.
    NoAction(u64),
}

/// The human-readable description of a center error.
pub open spec fn center_error_text(error: NotificationCenterError) -> Seq<char> {
    match error {
        NotificationCenterError::Service(message) => message@,
        NotificationCenterError::NotVisible(id) => "notification "@ + decimal(id as nat)
            + " is not visible in this center scope"@,
        NotificationCenterError::NoAction(id) => "notification "@ + decimal(id as nat)
            + " has no declared actions"@,
    }
}

impl NotificationCenterError {
    /// Human-readable description of the error.
    pub fn message(&self) -> (text: String)
        ensures
            text@ == center_error_text(*self),
    {
        match self {
            NotificationCenterError::Service(message) => message.clone(),
            NotificationCenterError::NotVisible(id) => {
                let mut text = String::from_str("notification ");
                push_decimal(&mut text, *id);
                text.append(" is not visible in this center scope");
                text
            },
            NotificationCenterError::NoAction(id) => {
                let mut text = String::from_str("notification ");
                push_decimal(&mut text, *id);
                text.append(" has no declared actions");
                text
            },
        }
    }
}

/// Result of a keyboard or typed center operation that the center settles
/// by itself, or the service request it needs.
#[derive(Debug, Clone, PartialEq, Eq)]
pub enum NotificationCenterStep {
    /// Focus moved to a notification.
    FocusChanged(u64),
    /// Focus was cleared.
    FocusCleared,
    /// Input had no applicable effect.
    Ignored,
    /// Ask the service to dismiss this visible record as a user action.
    Dismiss(u64),
    /// Ask the service to invoke this action of this visible record.
    InvokeAction(u64, String),
}

/// Whether a record has the id `id`.
pub open spec fn has_id(id: u64) -> spec_fn(NotificationRecord) -> bool {
    |record: NotificationRecord| record.id == id
}

/// Whether a record with `id` is in the projection.
pub open spec fn is_visible(records: Seq<NotificationRecord>, id: u64) -> bool {
    exists|i: int| 0 <= i < records.len() && #[trigger] records[i].id == id
}

/// Where focus moves from `focused` over `records`: to the previous or next
/// record cyclically, or to the last or first when nothing visible has focus.
pub open spec fn focus_target(records: Seq<NotificationRecord>, focused: Option<u64>, previous: bool) -> int {
    let len = records.len() as int;
    let current = match focused {
        Some(id) => first_index(records, has_id(id)),
        None => -1,
    };
    if current >= 0 {
        if previous {
            (current + len - 1) % len
        } else {
            (current + 1) % len
        }
    } else if previous {
        len - 1
    } else {
        0
    }
}

/// Whether `groups` sections `records`: sections strictly ordered most
/// urgent first, then by application id; each non-empty and holding exactly
/// that section's records, newest first, records of equal sequence in service
/// order; and every record's section present.
pub open spec fn sectioned(records: Seq<NotificationRecord>, groups: Seq<NotificationGroup>) -> bool {
    &&& forall|i: int, j: int|
        #![trigger groups[i], groups[j]]
        0 <= i < j < groups.len() ==> section_precedes(groups[i].key@, groups[j].key@)
    &&& forall|i: int|
        #![trigger groups[i]]
        0 <= i < groups.len() ==> groups[i].records@.len() > 0 && newest_first(
            record_views(groups[i].records@),
        ) && record_views(groups[i].records@).to_multiset() == record_views(records).filter(
            in_section(groups[i].key@),
        ).to_multiset() && record_views(groups[i].records@) == by_recency(
            record_views(records).filter(in_section(groups[i].key@)),
        )
    &&& records_have_keys(groups.map_values(|g: NotificationGroup| g.key@), record_views(records))
}

/// Stable notification center state.
#[derive(Debug)]
pub struct NotificationCenter {
    scope: NotificationScope,
    records: Vec<NotificationRecord>,
    focused: Option<u64>,
}

impl NotificationCenter {
    /// The selected scope.
    pub closed spec fn scope_spec(&self) -> NotificationScope {
        self.scope
    }

    /// The service projection, newest first.
    pub closed spec fn records_spec(&self) -> Seq<NotificationRecord> {
        self.records@
    }

    /// The notification selected by keyboard navigation.
    pub closed spec fn focused_spec(&self) -> Option<u64> {
        self.focused
    }

    /// An empty center over active notifications.
    pub fn new() -> (center: Self)
        ensures
            center.scope_spec() == NotificationScope::Active,
            center.records_spec().len() == 0,
            center.focused_spec() is None,
    {
        NotificationCenter { scope: NotificationScope::Active, records: Vec::new(), focused: None }
    }

    /// The selected service query scope.
    pub fn scope(&self) -> (scope: NotificationScope)
        ensures
            scope == self.scope_spec(),
    {
        self.scope
    }

    /// The notification currently selected by keyboard navigation.
    pub fn focused(&self) -> (focused: Option<u64>)
        ensures
            focused == self.focused_spec(),
    {
        self.focused
    }

    /// The current service projection.
    pub fn records(&self) -> (records: &Vec<NotificationRecord>)
        ensures
            records@ == self.records_spec(),
    {
        &self.records
    }

    /// Select active-only or retained-history scope; the caller then reads
    /// that scope from the service and hands it to [`Self::refresh_with`].
    pub fn set_scope(&mut self, scope: NotificationScope)
        ensures
            final(self).scope_spec() == scope,
            final(self).records_spec() == old(self).records_spec(),
            final(self).focused_spec() == old(self).focused_spec(),
    {
        self.scope = scope;
    }

    /// Adopt the service's projection for the selected scope. Focus survives
    /// only when the focused record is still in it.
    pub fn refresh_with(&mut self, records: Vec<NotificationRecord>)
        ensures
            final(self).records_spec() == records@,
            final(self).scope_spec() == old(self).scope_spec(),
            final(self).focused_spec() == match old(self).focused_spec() {
                Some(id) => if is_visible(records@, id) {
                    Some(id)
                } else {
                    None
                },
                None => None,
            },
    {
        self.records = records;
        if let Some(id) = self.focused {
            if self.position(id).is_none() {
                self.focused = None;
            }
        }
    }

    fn position(&self, id: u64) -> (at: Option<usize>)
        ensures
            match at {
                Some(i) => i < self.records@.len() && first_index(self.records@, has_id(id)) == i
                    && self.records@[i as int].id == id && is_visible(self.records@, id),
                None => first_index(self.records@, has_id(id)) == -1 && !is_visible(self.records@, id),
            },
    {
        let mut i: usize = 0;
        while i < self.records.len()
            invariant
                i <= self.records@.len(),
                forall|j: int| 0 <= j < i ==> !has_id(id)(#[trigger] self.records@[j]),
            decreases self.records@.len() - i,
        {
            if self.records[i].id == id {
                proof {
                    lemma_first_index_is(self.records@, has_id(id), i as int);
                }
                return Some(i);
            }
            i = i + 1;
        }
        proof {
            lemma_first_index_is(self.records@, has_id(id), -1);
            assert forall|k: int| 0 <= k < self.records@.len() implies #[trigger] self.records@[k].id != id by {
                assert(!has_id(id)(self.records@[k]));
            }
        }
        None
    }

    /// The visible record with `id`.
    pub fn record(&self, id: u64) -> (result: Result<&NotificationRecord, NotificationCenterError>)
        ensures
            match result {
                Ok(r) => r.id == id && is_visible(self.records_spec(), id) && r == self.records_spec()[first_index(
                    self.records_spec(),
                    has_id(id),
                )],
                Err(e) => e == NotificationCenterError::NotVisible(id) && !is_visible(
                    self.records_spec(),
                    id,
                ),
            },
    {
        match self.position(id) {
            Some(i) => Ok(&self.records[i]),
            None => Err(NotificationCenterError::NotVisible(id)),
        }
    }

    /// Move keyboard focus cyclically; an empty projection ignores the key.
    pub fn move_focus(&mut self, previous: bool) -> (step: NotificationCenterStep)
        ensures
            final(self).records_spec() == old(self).records_spec(),
            final(self).scope_spec() == old(self).scope_spec(),
            old(self).records_spec().len() == 0 ==> step == NotificationCenterStep::Ignored
                && final(self).focused_spec() == old(self).focused_spec(),
            old(self).records_spec().len() > 0 ==> ({
                let target = focus_target(old(self).records_spec(), old(self).focused_spec(), previous);
                &&& 0 <= target < old(self).records_spec().len()
                &&& step == NotificationCenterStep::FocusChanged(old(self).records_spec()[target].id)
                &&& final(self).focused_spec() == Some(old(self).records_spec()[target].id)
            }),
    {
        let len = self.records.len();
        if len == 0 {
            return NotificationCenterStep::Ignored;
        }
        let current = match self.focused {
            Some(id) => self.position(id),
            None => None,
        };
        let index = match current {
            Some(index) => {
                proof {
                    lemma_cycle_step(index as int, len as int);
                }
                if previous {
                    if index == 0 {
                        len - 1
                    } else {
                        index - 1
                    }
                } else if index + 1 == len {
                    0
                } else {
                    index + 1
                }
            },
            None => if previous {
                len - 1
            } else {
                0
            },
        };
        let id = self.records[index].id;
        self.focused = Some(id);
        NotificationCenterStep::FocusChanged(id)
    }

    /// Interpret one normalized keyboard event. Arrow keys move focus; Escape
    /// clears it; Delete asks to dismiss the focused record and Enter asks to
    /// invoke its first declared action, both only while it is visible.
    pub fn handle_key(&mut self, key: NotificationCenterKey) -> (result: Result<
        NotificationCenterStep,
        NotificationCenterError,
    >)
        ensures
            final(self).records_spec() == old(self).records_spec(),
            final(self).scope_spec() == old(self).scope_spec(),
            (key == NotificationCenterKey::Escape) ==> result == Ok::<
                NotificationCenterStep,
                NotificationCenterError,
            >(NotificationCenterStep::FocusCleared) && final(self).focused_spec() is None,
            (key == NotificationCenterKey::Delete || key == NotificationCenterKey::Enter) ==> final(self).focused_spec() == old(self).focused_spec(),
            (key == NotificationCenterKey::Delete || key == NotificationCenterKey::Enter) && old(self).focused_spec() is None ==> result == Ok::<
                NotificationCenterStep,
                NotificationCenterError,
            >(NotificationCenterStep::Ignored),
            (key == NotificationCenterKey::Delete) ==> match old(self).focused_spec() {
                Some(id) => if is_visible(old(self).records_spec(), id) {
                    result == Ok::<NotificationCenterStep, NotificationCenterError>(
                        NotificationCenterStep::Dismiss(id),
                    )
                } else {
                    result == Err::<NotificationCenterStep, NotificationCenterError>(
                        NotificationCenterError::NotVisible(id),
                    )
                },
                None => true,
            },
            (key == NotificationCenterKey::Enter) ==> match old(self).focused_spec() {
                Some(id) => if !is_visible(old(self).records_spec(), id) {
                    result == Err::<NotificationCenterStep, NotificationCenterError>(
                        NotificationCenterError::NotVisible(id),
                    )
                } else {
                    let record = old(self).records_spec()[first_index(
                        old(self).records_spec(),
                        has_id(id),
                    )];
                    if record.actions@.len() == 0 {
                        result == Err::<NotificationCenterStep, NotificationCenterError>(
                            NotificationCenterError::NoAction(id),
                        )
                    } else {
                        result matches Ok(NotificationCenterStep::InvokeAction(target, action))
                            && target == id && action@ == record.actions@[0].id@
                    }
                },
                None => true,
            },
            (key == NotificationCenterKey::ArrowUp || key == NotificationCenterKey::ArrowDown) ==> (
            if old(self).records_spec().len() == 0 {
                result == Ok::<NotificationCenterStep, NotificationCenterError>(
                    NotificationCenterStep::Ignored,
                ) && final(self).focused_spec() == old(self).focused_spec()
            } else {
                let target = focus_target(
                    old(self).records_spec(),
                    old(self).focused_spec(),
                    key == NotificationCenterKey::ArrowUp,
                );
                result == Ok::<NotificationCenterStep, NotificationCenterError>(
                    NotificationCenterStep::FocusChanged(old(self).records_spec()[target].id),
                ) && final(self).focused_spec() == Some(old(self).records_spec()[target].id)
            }),
    {
        match key {
            NotificationCenterKey::ArrowUp => Ok(self.move_focus(true)),
            NotificationCenterKey::ArrowDown => Ok(self.move_focus(false)),
            NotificationCenterKey::Delete => {
                let id = match self.focused {
                    Some(id) => id,
                    None => return Ok(NotificationCenterStep::Ignored),
                };
                self.record(id)?;
                Ok(NotificationCenterStep::Dismiss(id))
            },
            NotificationCenterKey::Enter => {
                let id = match self.focused {
                    Some(id) => id,
                    None => return Ok(NotificationCenterStep::Ignored),
                };
                let record = self.record(id)?;
                if record.actions.len() == 0 {
                    return Err(NotificationCenterError::NoAction(id));
                }
                Ok(NotificationCenterStep::InvokeAction(id, record.actions[0].id.clone()))
            },
            NotificationCenterKey::Escape => {
                self.focused = None;
                Ok(NotificationCenterStep::FocusCleared)
            },
        }
    }

    /// The projection grouped into sections by application and urgency:
    /// most urgent sections first, then by application id; each section
    /// holds exactly that section's records, newest first, records of equal
    /// sequence in service order.
    pub fn groups(&self) -> (groups: Vec<NotificationGroup>)
        ensures
            sectioned(self.records_spec(), groups@),
    {
        broadcast use vstd::seq_lib::group_to_multiset_ensures;

        let ghost all = record_views(self.records@);
        let keys = section_keys(&self.records);
        proof {
            assert forall|i: int, j: int|
                0 <= i < keys@.len() && 0 <= j < keys@.len() && i != j implies crate::sort::comparable(
                #[trigger] keys@[i],
                #[trigger] keys@[j],
            ) by {
                lemma_seq_lt_trichotomy(keys@[i].app_id@, keys@[j].app_id@);
                if i < j {
                    assert(keys@[i]@ != keys@[j]@);
                } else {
                    assert(keys@[j]@ != keys@[i]@);
                }
            }
        }
        let ghost unsorted = keys@;
        let sorted = sort_ranked(keys);
        proof {
            lemma_same_keys(unsorted, sorted@, all);
        }
        let mut groups: Vec<NotificationGroup> = Vec::new();
        let mut i: usize = 0;
        while i < sorted.len()
            invariant
                i <= sorted@.len(),
                all == record_views(self.records@),
                groups@.len() == i,
                strictly_sorted(sorted@),
                keys_name_records(key_views(sorted@), all),
                records_have_keys(key_views(sorted@), all),
                forall|a: int| #![trigger groups@[a]] 0 <= a < i ==> groups@[a].key@ == sorted@[a]@,
                forall|a: int|
                    #![trigger groups@[a]]
                    0 <= a < i ==> groups@[a].records@.len() > 0 && newest_first(
                        record_views(groups@[a].records@),
                    ) && record_views(groups@[a].records@).to_multiset() == all.filter(
                        in_section(groups@[a].key@),
                    ).to_multiset() && record_views(groups@[a].records@) == by_recency(
                        all.filter(in_section(groups@[a].key@)),
                    ),
            decreases sorted@.len() - i,
        {
            let key = NotificationGroupKey { app_id: sorted[i].app_id.clone(), urgency: sorted[i].urgency };
            let found = section_records(&self.records, &key);
            proof {
                assert(key_views(sorted@)[i as int] == key@);
                assert(named_by_record(key_views(sorted@)[i as int], all));
                let k = choose|k: int| 0 <= k < all.len() && section_of(#[trigger] all[k]) == key_views(sorted@)[i as int];
                all.lemma_filter_contains(in_section(key@), k);
                all.filter(in_section(key@)).to_multiset_ensures();
                assert(all.filter(in_section(key@)).to_multiset().count(all[k]) > 0);
                record_views(found@).to_multiset_ensures();
                assert(record_views(found@).to_multiset().count(all[k]) > 0);
                assert(record_views(found@).contains(all[k]));
                assert(record_views(found@).len() == found@.len());
            }
            let ghost earlier = groups@;
            groups.push(NotificationGroup { key, records: found });
            proof {
                assert(groups@[i as int].records@.len() > 0);
                assert forall|a: int| 0 <= a < i implies #[trigger] groups@[a] == earlier[a] by {}
            }
            i = i + 1;
        }
        proof {
            assert forall|a: int, b: int|
                #![trigger groups@[a], groups@[b]]
                0 <= a < b < groups@.len() implies section_precedes(groups@[a].key@, groups@[b].key@) by {
                assert(sorted@[a].precedes(&sorted@[b]));
            }
            assert(groups@.map_values(|g: NotificationGroup| g.key@) =~= key_views(sorted@));
        }
        groups
    }

    /// Check that a record is visible before asking the service to act on it.
    pub fn require_visible(&self, id: u64) -> (result: Result<(), NotificationCenterError>)
        ensures
            result is Ok <==> is_visible(self.records_spec(), id),
            result is Err ==> result == Err::<(), NotificationCenterError>(
                NotificationCenterError::NotVisible(id),
            ),
    {
        match self.record(id) {
            Ok(_) => Ok(()),
            Err(e) => Err(e),
        }
    }
}

/// The name an urgency is reported under.
pub open spec fn urgency_name(urgency: NotificationUrgency) -> Seq<char> {
    match urgency {
        NotificationUrgency::Low => "Low"@,
        NotificationUrgency::Normal => "Normal"@,
        NotificationUrgency::Critical => "Critical"@,
    }
}

/// The name an urgency is reported under.
pub fn urgency_text(urgency: NotificationUrgency) -> (name: &'static str)
    ensures
        name@ == urgency_name(urgency),
{
    match urgency {
        NotificationUrgency::Low => "Low",
        NotificationUrgency::Normal => "Normal",
        NotificationUrgency::Critical => "Critical",
    }
}

/// The value the center's root node reports for a scope.
pub open spec fn scope_text(scope: NotificationScope) -> Seq<char> {
    match scope {
        NotificationScope::Active => "active notifications"@,
        NotificationScope::History => "notification history"@,
    }
}

/// The node of one declared action of `record`: a button named by the
/// action's label, disabled once the record is no longer active.
pub open spec fn action_node_is(
    node: AccessibilityNode,
    record: NotificationRecord,
    action: NotificationAction,
) -> bool {
    leaf_is(
        node,
        "notification-action-"@ + decimal(record.id as nat) + "-"@ + action.id@,
        SemanticRole::Button,
        action.label@,
        Some(action.id@),
        AccessibilityState {
            focused: false,
            selected: false,
            disabled: record.lifecycle != NotificationLifecycle::Active,
            editable: false,
        },
    )
}

/// The node of one record: a button named by its summary, valued by its
/// body, focused when the center's focus is on it, with one child per action.
pub open spec fn record_node_is(node: AccessibilityNode, record: NotificationRecord, focused: Option<u64>) -> bool {
    &&& node_is(
        node,
        "notification-"@ + decimal(record.id as nat),
        SemanticRole::Button,
        record.summary@,
        value_text(record.body),
        AccessibilityState {
            focused: focused == Some(record.id),
            selected: record.lifecycle == NotificationLifecycle::Active,
            disabled: record.lifecycle != NotificationLifecycle::Active,
            editable: false,
        },
    )
    &&& node.children@.len() == record.actions@.len()
    &&& forall|k: int|
        0 <= k < record.actions@.len() ==> action_node_is(
            #[trigger] node.children@[k],
            record,
            record.actions@[k],
        )
}

/// The node of one section, with one child per record in section order.
pub open spec fn group_node_is(node: AccessibilityNode, group: NotificationGroup, focused: Option<u64>) -> bool {
    &&& node_is(
        node,
        "notification-group-"@ + group.key.app_id@ + "-"@ + urgency_name(group.key.urgency),
        SemanticRole::Group,
        group.key.app_id@ + " "@ + urgency_name(group.key.urgency),
        Some(decimal(group.records@.len()) + " notifications"@),
        plain_state(),
    )
    &&& node.children@.len() == group.records@.len()
    &&& forall|j: int|
        0 <= j < group.records@.len() ==> record_node_is(
            #[trigger] node.children@[j],
            group.records@[j],
            focused,
        )
}

/// The center's tree over `groups`: one child per section, in order.
pub open spec fn sections_tree_is(
    tree: AccessibilityNode,
    scope: NotificationScope,
    focused: Option<u64>,
    groups: Seq<NotificationGroup>,
) -> bool {
    &&& node_is(
        tree,
        "notification-center"@,
        SemanticRole::Group,
        "Notification Center"@,
        Some(scope_text(scope)),
        plain_state(),
    )
    &&& tree.children@.len() == groups.len()
    &&& forall|i: int| 0 <= i < groups.len() ==> group_node_is(#[trigger] tree.children@[i], groups[i], focused)
}

fn action_node(record: &NotificationRecord, action: &NotificationAction) -> (node: AccessibilityNode)
    ensures
        action_node_is(node, *record, *action),
{
    let mut id = String::from_str("notification-action-");
    push_decimal(&mut id, record.id);
    id.append("-");
    id.append(action.id.as_str());
    AccessibilityNode {
        id,
        role: SemanticRole::Button,
        label: action.label.clone(),
        value: Some(action.id.clone()),
        state: AccessibilityState {
            focused: false,
            selected: false,
            disabled: record.lifecycle != NotificationLifecycle::Active,
            editable: false,
        },
        children: Vec::new(),
    }
}

fn record_node(record: &NotificationRecord, focused: Option<u64>) -> (node: AccessibilityNode)
    ensures
        record_node_is(node, *record, focused),
{
    let mut children: Vec<AccessibilityNode> = Vec::new();
    let mut k: usize = 0;
    while k < record.actions.len()
        invariant
            k <= record.actions@.len(),
            children@.len() == k,
            forall|a: int| 0 <= a < k ==> action_node_is(#[trigger] children@[a], *record, record.actions@[a]),
        decreases record.actions@.len() - k,
    {
        children.push(action_node(record, &record.actions[k]));
        k = k + 1;
    }
    let mut id = String::from_str("notification-");
    push_decimal(&mut id, record.id);
    let is_focused = match focused {
        Some(f) => f == record.id,
        None => false,
    };
    AccessibilityNode {
        id,
        role: SemanticRole::Button,
        label: record.summary.clone(),
        value: copy_value(&record.body),
        state: AccessibilityState {
            focused: is_focused,
            selected: record.lifecycle == NotificationLifecycle::Active,
            disabled: record.lifecycle != NotificationLifecycle::Active,
            editable: false,
        },
        children,
    }
}

fn group_node(group: &NotificationGroup, focused: Option<u64>) -> (node: AccessibilityNode)
    ensures
        group_node_is(node, *group, focused),
{
    let mut children: Vec<AccessibilityNode> = Vec::new();
    let mut j: usize = 0;
    while j < group.records.len()
        invariant
            j <= group.records@.len(),
            children@.len() == j,
            forall|a: int| 0 <= a < j ==> record_node_is(#[trigger] children@[a], group.records@[a], focused),
        decreases group.records@.len() - j,
    {
        children.push(record_node(&group.records[j], focused));
        j = j + 1;
    }
    let urgency = urgency_text(group.key.urgency);
    let mut id = String::from_str("notification-group-");
    id.append(group.key.app_id.as_str());
    id.append("-");
    id.append(urgency);
    let mut label = group.key.app_id.clone();
    label.append(" ");
    label.append(urgency);
    let mut value = String::new();
    push_decimal(&mut value, group.records.len() as u64);
    value.append(" notifications");
    AccessibilityNode {
        id,
        role: SemanticRole::Group,
        label,
        value: Some(value),
        state: AccessibilityState::default(),
        children,
    }
}

/// The center's semantic tree over already-computed sections.
pub fn sections_tree(scope: NotificationScope, focused: Option<u64>, groups: &Vec<NotificationGroup>) -> (tree:
    AccessibilityNode)
    ensures
        sections_tree_is(tree, scope, focused, groups@),
{
    let mut children: Vec<AccessibilityNode> = Vec::new();
    let mut i: usize = 0;
    while i < groups.len()
        invariant
            i <= groups@.len(),
            children@.len() == i,
            forall|a: int| 0 <= a < i ==> group_node_is(#[trigger] children@[a], groups@[a], focused),
        decreases groups@.len() - i,
    {
        children.push(group_node(&groups[i], focused));
        i = i + 1;
    }
    let value = match scope {
        NotificationScope::Active => String::from_str("active notifications"),
        NotificationScope::History => String::from_str("notification history"),
    };
    AccessibilityNode {
        id: String::from_str("notification-center"),
        role: SemanticRole::Group,
        label: String::from_str("Notification Center"),
        value: Some(value),
        state: AccessibilityState::default(),
        children,
    }
}

impl NotificationCenter {
    /// The token roles the center is drawn with: a raised panel over body
    /// text that presents with panel motion.
    pub fn visual_tokens(&self) -> (tokens: VisualTokenContract)
        ensures
            tokens == panel_tokens(),
    {
        panel_token_contract()
    }

    /// The semantic tree exported to a platform accessibility bridge: the
    /// center, one group per section as [`Self::groups`] orders them, one
    /// button per record, and one button per declared action.
    pub fn accessibility_tree(&self) -> (tree: AccessibilityNode)
        ensures
            exists|groups: Seq<NotificationGroup>|
                #[trigger] sectioned(self.records_spec(), groups) && sections_tree_is(
                    tree,
                    self.scope_spec(),
                    self.focused_spec(),
                    groups,
                ),
    {
        let groups = self.groups();
        let tree = sections_tree(self.scope, self.focused, &groups);
        proof {
            assert(sectioned(self.records_spec(), groups@));
        }
        tree
    }
}

/// Focus moves cyclically over the records: from the record at index `i`,
/// moving back focuses the one before it and moving on the one after it,
/// the first wrapping to the last and the last to the first. With nothing
/// visible focused, moving back starts at the last record and moving on at
/// the first.
pub proof fn lemma_focus_cycles(records: Seq<NotificationRecord>, i: int, absent: u64)
    requires
        0 <= i < records.len(),
        forall|j: int| 0 <= j < i ==> #[trigger] records[j].id != records[i].id,
        forall|j: int| 0 <= j < records.len() ==> #[trigger] records[j].id != absent,
    ensures
        focus_target(records, Some(records[i].id), true) == if i == 0 {
            records.len() - 1
        } else {
            i - 1
        },
        focus_target(records, Some(records[i].id), false) == if i == records.len() - 1 {
            0
        } else {
            i + 1
        },
        focus_target(records, Some(absent), true) == records.len() - 1,
        focus_target(records, Some(absent), false) == 0,
        focus_target(records, None, true) == records.len() - 1,
        focus_target(records, None, false) == 0,
{
    let n = records.len() as int;
    lemma_first_index_is(records, has_id(records[i].id), i);
    lemma_first_index_is(records, has_id(absent), -1);
    if i == 0 {
        vstd::arithmetic::div_mod::lemma_small_mod((n - 1) as nat, n as nat);
    } else {
        vstd::arithmetic::div_mod::lemma_mod_add_multiples_vanish(i - 1, n);
        vstd::arithmetic::div_mod::lemma_small_mod((i - 1) as nat, n as nat);
    }
    if i == n - 1 {
        vstd::arithmetic::div_mod::lemma_mod_self_0(n);
    } else {
        vstd::arithmetic::div_mod::lemma_small_mod((i + 1) as nat, n as nat);
    }
}

} // verus!
