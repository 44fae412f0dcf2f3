//! Transient notification presentation policy.
//!
//! Which notifications the native surface shows as cards, how long the host
//! keeps each one, and what a malformed policy is refused as. Timed cards are
//! not dismissed here: their duration goes to the native host, which expires
//! them through the same typed dismissal path a user action takes.

use vstd::prelude::*;
use crate::accessibility::{
    copy_value, leaf_is, node_is, plain_state, value_text, AccessibilityNode, AccessibilityState,
    SemanticRole,
};
use crate::notification_center::{
    NotificationAction, NotificationCenterError, NotificationLifecycle, NotificationRecord,
    NotificationUrgency,
};
use crate::overlay::{Anchor, ExclusiveZone, InputRegion, LayerShellLayer};
use crate::text::{decimal, push_decimal};

verus! {

/// How long the host keeps a card.
#[derive(Debug, Clone, Copy, PartialEq, Eq, Structural)]
pub enum NotificationLifetime {
    /// Keep the card until the user or application dismisses it.
    Sticky,
    /// Ask the host to expire the card after this many milliseconds.
    Timed(u64),
}

/// Errors returned before a native host sees an invalid notification frame.
#[derive(Debug, Clone, PartialEq, Eq)]
pub enum NotificationSurfaceError {
    /// Output identity, size, or scale is malformed.
    InvalidOutput,
    /// User policy is malformed or unsafe.
    InvalidPolicy(&'static str),
    /// Notification service rejected a typed operation.
    Service(String),
    /// Notification center rejected a keyboard operation.
    Center(NotificationCenterError),
    /// Application action delivery failed after service validation.
    ActionDelivery(String),
}

/// User policy for transient notification presentation.
#[derive(Debug, Clone, Copy, PartialEq, Eq, Structural)]
pub struct NotificationPolicy {
    /// Maximum number of cards presented in one frame.
    pub max_visible: usize,
    /// Presentation lifetime for low urgency records.
    pub low: NotificationLifetime,
    /// Presentation lifetime for normal urgency records.
    pub normal: NotificationLifetime,
    /// Presentation lifetime for critical urgency records.
    pub critical: NotificationLifetime,
}

/// Whether a lifetime is a zero-length timer.
pub open spec fn zero_timer(lifetime: NotificationLifetime) -> bool {
    lifetime == NotificationLifetime::Timed(0)
}

impl Default for NotificationPolicy {
    /// Four cards; low urgency for five seconds, normal for eight, critical
    /// until dismissed.
    fn default() -> (policy: Self)
        ensures
            policy == (NotificationPolicy {
                max_visible: 4,
                low: NotificationLifetime::Timed(5000),
                normal: NotificationLifetime::Timed(8000),
                critical: NotificationLifetime::Sticky,
            }),
    {
        NotificationPolicy {
            max_visible: 4,
            low: NotificationLifetime::Timed(5000),
            normal: NotificationLifetime::Timed(8000),
            critical: NotificationLifetime::Sticky,
        }
    }
}

impl NotificationPolicy {
    /// Validate a policy before it reaches a native host: at least one card,
    /// and no timed lifetime of zero.
    pub fn validate(self) -> (result: Result<Self, NotificationSurfaceError>)
        ensures
            self.max_visible == 0 ==> result == Err::<NotificationPolicy, NotificationSurfaceError>(
                NotificationSurfaceError::InvalidPolicy("max_visible must be greater than zero"),
            ),
            self.max_visible > 0 && (zero_timer(self.low) || zero_timer(self.normal) || zero_timer(
                self.critical,
            )) ==> (result matches Err(NotificationSurfaceError::InvalidPolicy(reason)) && reason@
                == "timed lifetimes must be non-zero"@),
            self.max_visible > 0 && !zero_timer(self.low) && !zero_timer(self.normal) && !zero_timer(
                self.critical,
            ) ==> result == Ok::<NotificationPolicy, NotificationSurfaceError>(self),
    {
        if self.max_visible == 0 {
            return Err(NotificationSurfaceError::InvalidPolicy("max_visible must be greater than zero"));
        }
        let lifetimes = [self.low, self.normal, self.critical];
        let mut i: usize = 0;
        while i < 3
            invariant
                i <= 3,
                self.max_visible > 0,
                lifetimes@ == seq![self.low, self.normal, self.critical],
                forall|j: int| 0 <= j < i ==> !zero_timer(#[trigger] lifetimes@[j]),
            decreases 3 - i,
        {
            if let NotificationLifetime::Timed(millis) = lifetimes[i] {
                if millis == 0 {
                    return Err(NotificationSurfaceError::InvalidPolicy("timed lifetimes must be non-zero"));
                }
            }
            i = i + 1;
        }
        proof {
            assert(!zero_timer(lifetimes@[0]) && !zero_timer(lifetimes@[1]) && !zero_timer(lifetimes@[2]));
        }
        Ok(self)
    }

    /// The host expiry policy for one urgency class.
    pub fn lifetime(self, urgency: NotificationUrgency) -> (lifetime: NotificationLifetime)
        ensures
            lifetime == match urgency {
                NotificationUrgency::Low => self.low,
                NotificationUrgency::Normal => self.normal,
                NotificationUrgency::Critical => self.critical,
            },
    {
        match urgency {
            NotificationUrgency::Low => self.low,
            NotificationUrgency::Normal => self.normal,
            NotificationUrgency::Critical => self.critical,
        }
    }
}

/// What the surface shows of one record: its id, attributed application,
/// text, urgency and lifecycle, whether it has keyboard focus, when the host
/// should expire it (`None`: sticky), and the ids of its declared actions.
#[derive(Debug, Clone, PartialEq, Eq)]
pub struct CardPlan {
    pub id: u64,
    pub app_id: String,
    pub summary: String,
    pub body: Option<String>,
    pub urgency: NotificationUrgency,
    pub lifecycle: NotificationLifecycle,
    pub focused: bool,
    pub dismiss_after_ms: Option<u64>,
    pub actions: Vec<String>,
}

/// The ids of a record's declared actions, in declaration order.
pub open spec fn action_ids(record: NotificationRecord) -> Seq<Seq<char>> {
    record.actions@.map_values(|action: NotificationAction| action.id@)
}

/// Whether `card` shows `record` under `policy`, with focus on `focused`.
pub open spec fn shows(card: CardPlan, record: NotificationRecord, policy: NotificationPolicy, focused: Option<u64>) -> bool {
    let plan = card_of(record, policy, focused);
    &&& card.id == plan.0
    &&& card.focused == plan.1
    &&& card.dismiss_after_ms == plan.2
    &&& card.app_id@ == record.app_id@
    &&& card.summary@ == record.summary@
    &&& value_text(card.body) == value_text(record.body)
    &&& card.urgency == record.urgency
    &&& card.lifecycle == record.lifecycle
    &&& card.actions@.map_values(|id: String| id@) == action_ids(record)
}

/// The active records, in projection order.
pub open spec fn active_records(records: Seq<NotificationRecord>) -> Seq<NotificationRecord>
    decreases records.len(),
{
    if records.len() == 0 {
        Seq::empty()
    } else {
        let earlier = active_records(records.drop_last());
        if records.last().lifecycle == NotificationLifecycle::Active {
            earlier.push(records.last())
        } else {
            earlier
        }
    }
}

/// `(id, focused, expiry in milliseconds)` of the card shown for a record.
pub open spec fn card_of(record: NotificationRecord, policy: NotificationPolicy, focused: Option<u64>) -> (
    u64,
    bool,
    Option<u64>,
) {
    (
        record.id,
        focused == Some(record.id),
        match (match record.urgency {
            NotificationUrgency::Low => policy.low,
            NotificationUrgency::Normal => policy.normal,
            NotificationUrgency::Critical => policy.critical,
        }) {
            NotificationLifetime::Timed(millis) => Some(millis),
            NotificationLifetime::Sticky => None,
        },
    )
}

fn copy_action_ids(record: &NotificationRecord) -> (ids: Vec<String>)
    ensures
        ids@.map_values(|id: String| id@) == action_ids(*record),
{
    let mut ids: Vec<String> = Vec::new();
    let mut k: usize = 0;
    while k < record.actions.len()
        invariant
            k <= record.actions@.len(),
            ids@.len() == k,
            forall|a: int| 0 <= a < k ==> #[trigger] ids@[a]@ == record.actions@[a].id@,
        decreases record.actions@.len() - k,
    {
        ids.push(record.actions[k].id.clone());
        k = k + 1;
    }
    proof {
        assert(ids@.map_values(|id: String| id@) =~= action_ids(*record));
    }
    ids
}

/// The cards a frame shows: the first `max_visible` active records, newest
/// first as the projection orders them, each with its focus and expiry.
pub fn visible_cards(records: &Vec<NotificationRecord>, policy: NotificationPolicy, focused: Option<u64>) -> (cards: Vec<CardPlan>)
    ensures
        ({
            let shown = active_records(records@);
            let count = if shown.len() < policy.max_visible {
                shown.len() as int
            } else {
                policy.max_visible as int
            };
            &&& cards@.len() == count
            &&& forall|k: int| 0 <= k < count ==> shows(#[trigger] cards@[k], shown[k], policy, focused)
        }),
{
    let mut cards: Vec<CardPlan> = Vec::new();
    let mut i: usize = 0;
    while i < records.len() && cards.len() < policy.max_visible
        invariant
            i <= records@.len(),
            cards@.len() <= policy.max_visible,
            cards@.len() == active_records(records@.take(i as int)).len(),
            forall|k: int| 0 <= k < cards@.len() ==> shows(
                #[trigger] cards@[k],
                active_records(records@.take(i as int))[k],
                policy,
                focused,
            ),
        decreases records@.len() - i,
    {
        let record = &records[i];
        proof {
            assert(records@.take(i + 1).drop_last() =~= records@.take(i as int));
        }
        if record.lifecycle == NotificationLifecycle::Active {
            let dismiss_after_ms = match policy.lifetime(record.urgency) {
                NotificationLifetime::Timed(millis) => Some(millis),
                NotificationLifetime::Sticky => None,
            };
            cards.push(
                CardPlan {
                    id: record.id,
                    app_id: record.app_id.clone(),
                    summary: record.summary.clone(),
                    body: copy_value(&record.body),
                    urgency: record.urgency,
                    lifecycle: record.lifecycle,
                    focused: focused == Some(record.id),
                    dismiss_after_ms,
                    actions: copy_action_ids(record),
                },
            );
        }
        i = i + 1;
    }
    proof {
        lemma_active_prefix(records@, i as int);
        if i == records.len() {
            assert(records@.take(i as int) =~= records@);
        }
    }
    cards
}

/// The active records of a prefix are a prefix of the active records.
proof fn lemma_active_prefix(records: Seq<NotificationRecord>, n: int)
    requires
        0 <= n <= records.len(),
    ensures
        active_records(records.take(n)).len() <= active_records(records).len(),
        forall|k: int|
            0 <= k < active_records(records.take(n)).len() ==> #[trigger] active_records(
                records.take(n),
            )[k] == active_records(records)[k],
    decreases records.len() - n,
{
    if n < records.len() {
        lemma_active_prefix(records, n + 1);
        let shorter = records.take(n);
        let longer = records.take(n + 1);
        assert(longer.drop_last() =~= shorter);
        assert(active_records(longer) == if longer.last().lifecycle == NotificationLifecycle::Active {
            active_records(shorter).push(longer.last())
        } else {
            active_records(shorter)
        });
        assert forall|k: int| 0 <= k < active_records(shorter).len() implies #[trigger] active_records(
            shorter,
        )[k] == active_records(records)[k] by {
            assert(active_records(shorter)[k] == active_records(longer)[k]);
        }
    } else {
        assert(records.take(n) =~= records);
    }
}

/// The node of one declared action on the card of record `id`.
pub open spec fn card_action_node_is(node: AccessibilityNode, id: u64, action: NotificationAction) -> bool {
    leaf_is(
        node,
        "notification-surface."@ + decimal(id as nat) + ".action."@ + action.id@,
        SemanticRole::Button,
        action.id@,
        None,
        plain_state(),
    )
}

/// The node of the card of `record`: a selected button named by the
/// summary, valued by the body, with one child per declared action.
pub open spec fn card_node_is(node: AccessibilityNode, record: NotificationRecord, focused: Option<u64>) -> bool {
    &&& node_is(
        node,
        "notification-surface."@ + decimal(record.id as nat),
        SemanticRole::Button,
        record.summary@,
        value_text(record.body),
        AccessibilityState {
            focused: focused == Some(record.id),
            selected: true,
            disabled: false,
            editable: false,
        },
    )
    &&& node.children@.len() == record.actions@.len()
    &&& forall|k: int|
        0 <= k < record.actions@.len() ==> card_action_node_is(
            #[trigger] node.children@[k],
            record.id,
            record.actions@[k],
        )
}

fn card_node(record: &NotificationRecord, focused: Option<u64>) -> (node: AccessibilityNode)
    ensures
        card_node_is(node, *record, focused),
{
    let mut children: Vec<AccessibilityNode> = Vec::new();
    let mut k: usize = 0;
    while k < record.actions.len()
        invariant
            k <= record.actions@.len(),
            children@.len() == k,
            forall|a: int|
                0 <= a < k ==> card_action_node_is(#[trigger] children@[a], record.id, record.actions@[a]),
        decreases record.actions@.len() - k,
    {
        let mut id = String::from_str("notification-surface.");
        push_decimal(&mut id, record.id);
        id.append(".action.");
        id.append(record.actions[k].id.as_str());
        children.push(
            AccessibilityNode {
                id,
                role: SemanticRole::Button,
                label: record.actions[k].id.clone(),
                value: None,
                state: AccessibilityState::default(),
                children: Vec::new(),
            },
        );
        k = k + 1;
    }
    let mut id = String::from_str("notification-surface.");
    push_decimal(&mut id, record.id);
    AccessibilityNode {
        id,
        role: SemanticRole::Button,
        label: record.summary.clone(),
        value: copy_value(&record.body),
        state: AccessibilityState { focused: focused == Some(record.id), selected: true, disabled: false, editable: false },
        children,
    }
}

/// The surface's semantic tree: one card node per card [`visible_cards`]
/// shows, in the same order.
pub fn accessibility_tree(records: &Vec<NotificationRecord>, policy: NotificationPolicy, focused: Option<u64>) -> (tree:
    AccessibilityNode)
    ensures
        ({
            let shown = active_records(records@);
            let count = if shown.len() < policy.max_visible {
                shown.len() as int
            } else {
                policy.max_visible as int
            };
            &&& node_is(
                tree,
                "notification-surface"@,
                SemanticRole::Group,
                "Notifications"@,
                Some(decimal(count as nat) + " visible notifications"@),
                plain_state(),
            )
            &&& tree.children@.len() == count
            &&& forall|k: int| 0 <= k < count ==> card_node_is(#[trigger] tree.children@[k], shown[k], focused)
        }),
{
    let mut children: Vec<AccessibilityNode> = Vec::new();
    let mut i: usize = 0;
    while i < records.len() && children.len() < policy.max_visible
        invariant
            i <= records@.len(),
            children@.len() <= policy.max_visible,
            children@.len() == active_records(records@.take(i as int)).len(),
            forall|k: int|
                0 <= k < children@.len() ==> card_node_is(
                    #[trigger] children@[k],
                    active_records(records@.take(i as int))[k],
                    focused,
                ),
        decreases records@.len() - i,
    {
        let record = &records[i];
        proof {
            assert(records@.take(i + 1).drop_last() =~= records@.take(i as int));
        }
        if record.lifecycle == NotificationLifecycle::Active {
            children.push(card_node(record, focused));
        }
        i = i + 1;
    }
    proof {
        lemma_active_prefix(records@, i as int);
        if i == records.len() {
            assert(records@.take(i as int) =~= records@);
        }
    }
    let mut value = String::new();
    push_decimal(&mut value, children.len() as u64);
    value.append(" visible notifications");
    AccessibilityNode {
        id: String::from_str("notification-surface"),
        role: SemanticRole::Group,
        label: String::from_str("Notifications"),
        value: Some(value),
        state: AccessibilityState::default(),
        children,
    }
}

/// How the compositor places the notification surface: on the overlay
/// layer, in the output's top-right corner, reserving no work area, and
/// taking input so its cards can be acted on:
/// `(layer, anchor, exclusive zone, input region)`.
pub fn surface_layer_policy() -> (policy: (LayerShellLayer, Anchor, ExclusiveZone, InputRegion))
    ensures
        policy == (
            LayerShellLayer::Overlay,
            Anchor::TopRight,
            ExclusiveZone::NoReservation,
            InputRegion::Interactive,
        ),
{
    (LayerShellLayer::Overlay, Anchor::TopRight, ExclusiveZone::NoReservation, InputRegion::Interactive)
}

} // verus!
