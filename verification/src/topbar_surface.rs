//! What the native top bar shows.
//!
//! [`crate::topbar`] owns policy; this module owns the bar's fixed grammar:
//! the upper-left names the compositor-authenticated foreground application,
//! and the upper-right runs, in order, Live Capsule, Notification Center, and
//! system status. Provider state is shown, never invented: an unavailable or
//! failing provider renders as such, and a stale value is marked. Geometry and
//! pixels are the native painter's.

use vstd::prelude::*;
use crate::accessibility::{leaf_is, node_is, plain_state, AccessibilityNode, AccessibilityState, SemanticRole};
use crate::overlay::LayerShellLayer;
use crate::scp_host::{DesktopHostError, LayerAnchor, LayerKeyboard, LayerMargin, LayerPlacement};
use crate::text::{
    ascii_upper_text, decimal, joined, push_decimal, to_ascii_upper_string,
};
use crate::topbar::{ActivityIndicator, NetworkStatus, ProviderState, TopBarSnapshot};

verus! {

/// Stable SCP namespace of the top bar.
pub const TOPBAR_NAMESPACE: &'static str = "sol.topbar";

/// The application the compositor reports as focused.
///
/// Derived from focused surface, process, and App ID; never a client-supplied
/// display name on its own, so no application can impersonate another in the
/// most trusted strip of screen the desktop has.
#[derive(Debug, Clone, PartialEq, Eq)]
pub struct ForegroundApplication {
    /// Verified reverse-DNS application identity.
    pub app_id: String,
    /// User-visible title resolved from the verified identity.
    pub display_name: String,
}

/// Which zone of the bar an item belongs to, in presentation order.
#[derive(Debug, Clone, Copy, PartialEq, Eq, Structural, PartialOrd, Ord)]
pub enum TopBarZone {
    /// Upper-left: the authenticated foreground application and its menu.
    ForegroundApp,
    /// Upper-right, first: ongoing activities and privacy indicators.
    LiveCapsule,
    /// Upper-right: typed application status items.
    StatusItem,
    /// Upper-right: the Notification Center entry.
    NotificationCenter,
    /// Upper-right, last: clock, connectivity, audio, power.
    SystemStatus,
}

/// Rank of a zone in presentation order.
pub open spec fn zone_rank(zone: TopBarZone) -> int {
    match zone {
        TopBarZone::ForegroundApp => 0,
        TopBarZone::LiveCapsule => 1,
        TopBarZone::StatusItem => 2,
        TopBarZone::NotificationCenter => 3,
        TopBarZone::SystemStatus => 4,
    }
}

/// The design-token color role an item's text is drawn in.
#[derive(Debug, Clone, Copy, PartialEq, Eq, Structural)]
pub enum TextColor {
    TextPrimary,
    TextSecondary,
    Accent,
    Error,
}

/// One item of the bar before layout: identity, zone, accessible name, the
/// terse text shown, and the color role it is drawn in.
#[derive(Debug, Clone, PartialEq, Eq)]
pub struct BarItem {
    pub id: String,
    pub zone: TopBarZone,
    pub label: String,
    pub text: String,
    pub color: TextColor,
}

impl View for BarItem {
    type V = (Seq<char>, TopBarZone, Seq<char>, Seq<char>, TextColor);

    /// `(id, zone, label, text, color)`.
    open spec fn view(&self) -> Self::V {
        (self.id@, self.zone, self.label@, self.text@, self.color)
    }
}

/// Errors raised before an invalid bar frame reaches the compositor.
#[derive(Debug)]
pub enum TopBarSurfaceError {
    /// The compositor has not reported a usable output extent yet.
    OutputNotConfigured,
    /// The frame extent could not be allocated.
    UnpaintableExtent((u32, u32)),
    /// The native host rejected the frame.
    Host(DesktopHostError),
}

// ---------------------------------------------------------------------------
// Texts.

/// A value with the stale marker `~` appended when it may no longer be current.
pub open spec fn stale_marked(text: Seq<char>, stale: bool) -> Seq<char> {
    if stale {
        text + "~"@
    } else {
        text
    }
}

/// Terse network text.
pub open spec fn network_text_of(status: NetworkStatus) -> Seq<char> {
    match status {
        NetworkStatus::Offline => "OFFLINE"@,
        NetworkStatus::Connecting => "NET ..."@,
        NetworkStatus::Connected { signal_percent, .. } => "NET "@ + decimal(signal_percent as nat)
            + "%"@,
    }
}

/// Terse capsule text of one activity.
pub open spec fn activity_text_of(indicator: ActivityIndicator) -> Seq<char> {
    match indicator {
        ActivityIndicator::ScreenCapture => "SCREEN"@,
        ActivityIndicator::Microphone => "MIC"@,
        ActivityIndicator::Camera => "CAM"@,
        ActivityIndicator::RemoteControl => "REMOTE"@,
    }
}

/// Spelled-out name of one activity.
pub open spec fn activity_name_of(indicator: ActivityIndicator) -> Seq<char> {
    match indicator {
        ActivityIndicator::ScreenCapture => "Screen capture"@,
        ActivityIndicator::Microphone => "Microphone"@,
        ActivityIndicator::Camera => "Camera"@,
        ActivityIndicator::RemoteControl => "Remote control"@,
    }
}

/// The capsule text of a list of activities: terse names joined by spaces.
pub open spec fn capsule_text(indicators: Seq<ActivityIndicator>) -> Seq<char> {
    joined(indicators.map_values(|i: ActivityIndicator| activity_text_of(i)), " "@)
}

/// The spelled-out activities joined by commas.
pub open spec fn activities_description(indicators: Seq<ActivityIndicator>) -> Seq<char> {
    joined(indicators.map_values(|i: ActivityIndicator| activity_name_of(i)), ", "@)
}

/// Append the stale marker when `stale`.
pub fn mark_stale(text: String, stale: bool) -> (marked: String)
    ensures
        marked@ == stale_marked(text@, stale),
{
    if stale {
        let mut text = text;
        text.append("~");
        text
    } else {
        text
    }
}

/// Terse network text.
pub fn network_text(status: &NetworkStatus) -> (text: String)
    ensures
        text@ == network_text_of(*status),
{
    match status {
        NetworkStatus::Offline => String::from_str("OFFLINE"),
        NetworkStatus::Connecting => String::from_str("NET ..."),
        NetworkStatus::Connected { signal_percent, .. } => {
            let mut text = String::from_str("NET ");
            push_decimal(&mut text, *signal_percent as u64);
            text.append("%");
            text
        },
    }
}

/// Terse capsule text of one activity.
pub fn activity_text(indicator: ActivityIndicator) -> (text: &'static str)
    ensures
        text@ == activity_text_of(indicator),
{
    match indicator {
        ActivityIndicator::ScreenCapture => "SCREEN",
        ActivityIndicator::Microphone => "MIC",
        ActivityIndicator::Camera => "CAM",
        ActivityIndicator::RemoteControl => "REMOTE",
    }
}

/// Spelled-out name of one activity.
pub fn activity_name(indicator: ActivityIndicator) -> (name: &'static str)
    ensures
        name@ == activity_name_of(indicator),
{
    match indicator {
        ActivityIndicator::ScreenCapture => "Screen capture",
        ActivityIndicator::Microphone => "Microphone",
        ActivityIndicator::Camera => "Camera",
        ActivityIndicator::RemoteControl => "Remote control",
    }
}

/// Joining one more part extends the joined text.
proof fn lemma_joined_step(parts: Seq<Seq<char>>, separator: Seq<char>, i: int)
    requires
        0 <= i < parts.len(),
    ensures
        joined(parts.take(i + 1), separator) == if i == 0 {
            parts[0]
        } else {
            joined(parts.take(i), separator) + separator + parts[i]
        },
{
    assert(parts.take(i + 1).drop_last() =~= parts.take(i));
}

/// The activities joined: the terse texts by spaces, or (when `spelled_out`)
/// the names by commas.
fn join_activities(indicators: &Vec<ActivityIndicator>, spelled_out: bool) -> (text: String)
    ensures
        text@ == if spelled_out {
            activities_description(indicators@)
        } else {
            capsule_text(indicators@)
        },
{
    let ghost parts = if spelled_out {
        indicators@.map_values(|i: ActivityIndicator| activity_name_of(i))
    } else {
        indicators@.map_values(|i: ActivityIndicator| activity_text_of(i))
    };
    let ghost separator = if spelled_out {
        ", "@
    } else {
        " "@
    };
    let mut text = String::new();
    let mut i: usize = 0;
    while i < indicators.len()
        invariant
            i <= indicators@.len(),
            parts.len() == indicators@.len(),
            forall|k: int| 0 <= k < parts.len() ==> #[trigger] parts[k] == if spelled_out {
                activity_name_of(indicators@[k])
            } else {
                activity_text_of(indicators@[k])
            },
            separator == if spelled_out {
                ", "@
            } else {
                " "@
            },
            text@ == joined(parts.take(i as int), separator),
        decreases indicators@.len() - i,
    {
        proof {
            lemma_joined_step(parts, separator, i as int);
        }
        if i > 0 {
            if spelled_out {
                text.append(", ");
            } else {
                text.append(" ");
            }
        }
        if spelled_out {
            text.append(activity_name(indicators[i]));
        } else {
            text.append(activity_text(indicators[i]));
        }
        proof {
            if i == 0 {
                assert(joined(parts.take(0), separator) =~= Seq::<char>::empty());
                assert(text@ =~= parts[0]);
            }
        }
        i = i + 1;
    }
    proof {
        assert(parts.take(i as int) =~= parts);
    }
    text
}

/// The spelled-out activities joined by commas.
pub fn describe_activities(indicators: &Vec<ActivityIndicator>) -> (text: String)
    ensures
        text@ == activities_description(indicators@),
{
    join_activities(indicators, true)
}

// ---------------------------------------------------------------------------
// Items.

/// The foreground item's `(text, accessible label)`: the verified application
/// in upper case, or the system itself when nothing authenticated has focus.
pub open spec fn foreground_texts(foreground: Option<ForegroundApplication>) -> (Seq<char>, Seq<char>) {
    match foreground {
        Some(application) => (
            ascii_upper_text(application.display_name@),
            "Foreground application: "@ + application.app_id@,
        ),
        None => ("SOL"@, "No focused application"@),
    }
}

/// The upper-left item of the bar.
pub fn foreground_item(foreground: &Option<ForegroundApplication>) -> (item: BarItem)
    ensures
        item@ == (
            "topbar.foreground-app"@,
            TopBarZone::ForegroundApp,
            foreground_texts(*foreground).1,
            foreground_texts(*foreground).0,
            TextColor::TextPrimary,
        ),
{
    let (text, label) = match foreground {
        Some(application) => {
            let mut label = String::from_str("Foreground application: ");
            label.append(application.app_id.as_str());
            (to_ascii_upper_string(application.display_name.as_str()), label)
        },
        None => (String::from_str("SOL"), String::from_str("No focused application")),
    };
    BarItem {
        id: String::from_str("topbar.foreground-app"),
        zone: TopBarZone::ForegroundApp,
        label,
        text,
        color: TextColor::TextPrimary,
    }
}

/// The Live Capsule item, if the activity provider has something to show.
pub open spec fn capsule_item(
    activity: ProviderState<Vec<ActivityIndicator>>,
) -> Option<(Seq<char>, TopBarZone, Seq<char>, Seq<char>, TextColor)> {
    match activity {
        ProviderState::Available { value, stale } => if value@.len() > 0 {
            Some(
                (
                    "topbar.live-capsule"@,
                    TopBarZone::LiveCapsule,
                    activities_description(value@) + " active"@,
                    stale_marked(capsule_text(value@), stale),
                    TextColor::Accent,
                ),
            )
        } else {
            None
        },
        ProviderState::Error(reason) => Some(
            (
                "topbar.live-capsule"@,
                TopBarZone::LiveCapsule,
                "Privacy indicators unavailable: "@ + reason@,
                "PRIVACY !"@,
                TextColor::Error,
            ),
        ),
        ProviderState::Unavailable => None,
    }
}

/// The `(text, color)` a system-status provider shows: its value (marked when
/// stale), `--` when no adapter is installed, `!` when the adapter failed.
pub open spec fn status_text<T>(
    state: ProviderState<T>,
    prefix: Seq<char>,
    value_text: spec_fn(T) -> Seq<char>,
    value_color: TextColor,
) -> (Seq<char>, TextColor) {
    match state {
        ProviderState::Available { value, stale } => (
            stale_marked(value_text(value), stale),
            value_color,
        ),
        ProviderState::Unavailable => (prefix + "--"@, TextColor::TextSecondary),
        ProviderState::Error(_) => (prefix + "!"@, TextColor::Error),
    }
}

/// The upper-right items in their documented order.
pub open spec fn trailing_items_of(snapshot: TopBarSnapshot) -> Seq<
    (Seq<char>, TopBarZone, Seq<char>, Seq<char>, TextColor),
> {
    let network = status_text(
        snapshot.network,
        "NET "@,
        |status: NetworkStatus| network_text_of(status),
        TextColor::TextSecondary,
    );
    let audio = status_text(
        snapshot.audio,
        "VOL "@,
        |audio: crate::topbar::AudioStatus|
            if audio.muted {
                "MUTED"@
            } else {
                "VOL "@ + decimal(audio.volume_percent as nat) + "%"@
            },
        TextColor::TextSecondary,
    );
    let power = status_text(
        snapshot.power,
        "BAT "@,
        |power: crate::topbar::PowerStatus|
            (if power.charging {
                "CHG "@
            } else {
                "BAT "@
            }) + decimal(power.percent as nat) + "%"@,
        TextColor::TextSecondary,
    );
    let clock = status_text(
        snapshot.clock,
        ""@,
        |clock: crate::topbar::ClockStatus| clock.time@,
        TextColor::TextPrimary,
    );
    (match capsule_item(snapshot.activity) {
        Some(item) => seq![item],
        None => Seq::empty(),
    }) + seq![
        (
            "topbar.notification-center"@,
            TopBarZone::NotificationCenter,
            "Notification Center"@,
            "NOTES"@,
            TextColor::TextSecondary,
        ),
        ("topbar.network"@, TopBarZone::SystemStatus, "Network status"@, network.0, network.1),
        ("topbar.audio"@, TopBarZone::SystemStatus, "Audio status"@, audio.0, audio.1),
        ("topbar.power"@, TopBarZone::SystemStatus, "Power status"@, power.0, power.1),
        ("topbar.clock"@, TopBarZone::SystemStatus, "Clock"@, clock.0, clock.1),
    ]
}

fn item(id: &str, zone: TopBarZone, label: String, text: String, color: TextColor) -> (item: BarItem)
    ensures
        item@ == (id@, zone, label@, text@, color),
{
    BarItem { id: String::from_str(id), zone, label, text, color }
}

/// The upper-right items in their documented order: Live Capsule (when an
/// activity is live or the privacy provider failed), Notification Center,
/// then network, audio, power, and clock.
pub fn trailing_items(snapshot: &TopBarSnapshot) -> (items: Vec<BarItem>)
    ensures
        crate::sort::views(items@) == trailing_items_of(*snapshot),
{
    let mut items: Vec<BarItem> = Vec::new();
    match &snapshot.activity {
        ProviderState::Available { value, stale } => {
            if value.len() > 0 {
                let mut label = describe_activities(value);
                label.append(" active");
                let text = mark_stale(join_activities(value, false), *stale);
                items.push(item("topbar.live-capsule", TopBarZone::LiveCapsule, label, text, TextColor::Accent));
            }
        },
        ProviderState::Error(reason) => {
            let mut label = String::from_str("Privacy indicators unavailable: ");
            label.append(reason.as_str());
            items.push(
                item(
                    "topbar.live-capsule",
                    TopBarZone::LiveCapsule,
                    label,
                    String::from_str("PRIVACY !"),
                    TextColor::Error,
                ),
            );
        },
        ProviderState::Unavailable => {},
    }
    let ghost capsule = crate::sort::views(items@);
    items.push(
        item(
            "topbar.notification-center",
            TopBarZone::NotificationCenter,
            String::from_str("Notification Center"),
            String::from_str("NOTES"),
            TextColor::TextSecondary,
        ),
    );
    let (network, network_color) = match &snapshot.network {
        ProviderState::Available { value, stale } => (
            mark_stale(network_text(value), *stale),
            TextColor::TextSecondary,
        ),
        ProviderState::Unavailable => {
            proof {
                reveal_strlit("NET --");
                reveal_strlit("NET ");
                reveal_strlit("--");
                assert("NET --"@ =~= "NET "@ + "--"@);
            }
            (String::from_str("NET --"), TextColor::TextSecondary)
        },
        ProviderState::Error(_) => {
            proof {
                reveal_strlit("NET !");
                reveal_strlit("NET ");
                reveal_strlit("!");
                assert("NET !"@ =~= "NET "@ + "!"@);
            }
            (String::from_str("NET !"), TextColor::Error)
        },
    };
    items.push(
        item(
            "topbar.network",
            TopBarZone::SystemStatus,
            String::from_str("Network status"),
            network,
            network_color,
        ),
    );
    let (audio, audio_color) = match &snapshot.audio {
        ProviderState::Available { value, stale } => {
            let text = if value.muted {
                String::from_str("MUTED")
            } else {
                let mut text = String::from_str("VOL ");
                push_decimal(&mut text, value.volume_percent as u64);
                text.append("%");
                text
            };
            (mark_stale(text, *stale), TextColor::TextSecondary)
        },
        ProviderState::Unavailable => {
            proof {
                reveal_strlit("VOL --");
                reveal_strlit("VOL ");
                reveal_strlit("--");
                assert("VOL --"@ =~= "VOL "@ + "--"@);
            }
            (String::from_str("VOL --"), TextColor::TextSecondary)
        },
        ProviderState::Error(_) => {
            proof {
                reveal_strlit("VOL !");
                reveal_strlit("VOL ");
                reveal_strlit("!");
                assert("VOL !"@ =~= "VOL "@ + "!"@);
            }
            (String::from_str("VOL !"), TextColor::Error)
        },
    };
    items.push(
        item(
            "topbar.audio",
            TopBarZone::SystemStatus,
            String::from_str("Audio status"),
            audio,
            audio_color,
        ),
    );
    let (power, power_color) = match &snapshot.power {
        ProviderState::Available { value, stale } => {
            let mut text = if value.charging {
                String::from_str("CHG ")
            } else {
                String::from_str("BAT ")
            };
            push_decimal(&mut text, value.percent as u64);
            text.append("%");
            (mark_stale(text, *stale), TextColor::TextSecondary)
        },
        ProviderState::Unavailable => {
            proof {
                reveal_strlit("BAT --");
                reveal_strlit("BAT ");
                reveal_strlit("--");
                assert("BAT --"@ =~= "BAT "@ + "--"@);
            }
            (String::from_str("BAT --"), TextColor::TextSecondary)
        },
        ProviderState::Error(_) => {
            proof {
                reveal_strlit("BAT !");
                reveal_strlit("BAT ");
                reveal_strlit("!");
                assert("BAT !"@ =~= "BAT "@ + "!"@);
            }
            (String::from_str("BAT !"), TextColor::Error)
        },
    };
    items.push(
        item(
            "topbar.power",
            TopBarZone::SystemStatus,
            String::from_str("Power status"),
            power,
            power_color,
        ),
    );
    let (clock, clock_color) = match &snapshot.clock {
        ProviderState::Available { value, stale } => (
            mark_stale(value.time.clone(), *stale),
            TextColor::TextPrimary,
        ),
        ProviderState::Unavailable => {
            proof {
                reveal_strlit("");
                assert("--"@ =~= ""@ + "--"@);
            }
            (String::from_str("--"), TextColor::TextSecondary)
        },
        ProviderState::Error(_) => {
            proof {
                reveal_strlit("");
                assert("!"@ =~= ""@ + "!"@);
            }
            (String::from_str("!"), TextColor::Error)
        },
    };
    items.push(
        item("topbar.clock", TopBarZone::SystemStatus, String::from_str("Clock"), clock, clock_color),
    );
    proof {
        let expected = trailing_items_of(*snapshot);
        let n = capsule.len();
        assert(crate::sort::views(items@).len() == expected.len());
        assert(crate::sort::views(items@).take(n as int) =~= capsule);
        assert forall|k: int| 0 <= k < expected.len() implies crate::sort::views(items@)[k]
            == #[trigger] expected[k] by {
            if k < n {
                assert(crate::sort::views(items@)[k] == capsule[k]);
            }
        }
        assert(crate::sort::views(items@) =~= expected);
    }
    items
}

/// The trailing items never go back in zone order: Live Capsule, then
/// Notification Center, then system status.
pub proof fn lemma_trailing_zones_ordered(snapshot: TopBarSnapshot)
    ensures
        forall|i: int, j: int|
            0 <= i < j < trailing_items_of(snapshot).len() ==> zone_rank(
                #[trigger] trailing_items_of(snapshot)[i].1,
            ) <= zone_rank(#[trigger] trailing_items_of(snapshot)[j].1),
        forall|i: int|
            0 <= i < trailing_items_of(snapshot).len() ==> #[trigger] trailing_items_of(
                snapshot,
            )[i].1 != TopBarZone::ForegroundApp,
{
}

/// The role of an item: the foreground identity is a label, not a control;
/// it reports who owns the desktop, and activating it would mean activating
/// an application the user did not point at.
pub open spec fn item_role(zone: TopBarZone) -> SemanticRole {
    match zone {
        TopBarZone::ForegroundApp => SemanticRole::Group,
        _ => SemanticRole::Button,
    }
}

/// The node of one item: named by its label, valued by its text.
pub open spec fn item_node_is(node: AccessibilityNode, item: BarItem) -> bool {
    leaf_is(node, item.id@, item_role(item.zone), item.label@, Some(item.text@), plain_state())
}

/// The bar's semantic tree: the bar and one node per item, in order.
pub fn accessibility_tree(items: &Vec<BarItem>) -> (tree: AccessibilityNode)
    ensures
        node_is(tree, "topbar-surface"@, SemanticRole::Group, "SOL Top Bar"@, None, plain_state()),
        tree.children@.len() == items@.len(),
        forall|i: int| 0 <= i < items@.len() ==> item_node_is(#[trigger] tree.children@[i], items@[i]),
{
    let mut children: Vec<AccessibilityNode> = Vec::new();
    let mut i: usize = 0;
    while i < items.len()
        invariant
            i <= items@.len(),
            children@.len() == i,
            forall|a: int| 0 <= a < i ==> item_node_is(#[trigger] children@[a], items@[a]),
        decreases items@.len() - i,
    {
        let item = &items[i];
        let role = match item.zone {
            TopBarZone::ForegroundApp => SemanticRole::Group,
            _ => SemanticRole::Button,
        };
        children.push(
            AccessibilityNode {
                id: item.id.clone(),
                role,
                label: item.label.clone(),
                value: Some(item.text.clone()),
                state: AccessibilityState::default(),
                children: Vec::new(),
            },
        );
        i = i + 1;
    }
    AccessibilityNode {
        id: String::from_str("topbar-surface"),
        role: SemanticRole::Group,
        label: String::from_str("SOL Top Bar"),
        value: None,
        state: AccessibilityState::default(),
        children,
    }
}

/// Where the compositor places the bar: on the top layer, spanning the top
/// edge of an output `output_width` physical pixels wide, `height` physical
/// pixels tall, reserving its own height so windows start below it, and
/// never taking the keyboard.
pub fn topbar_placement(output_width: i32, height: i32) -> (placement: LayerPlacement)
    ensures
        placement.namespace@ == TOPBAR_NAMESPACE@,
        placement.layer == LayerShellLayer::Top,
        placement.anchor == (LayerAnchor { top: true, bottom: false, left: true, right: true }),
        placement.margin == (LayerMargin { top: 0, right: 0, bottom: 0, left: 0 }),
        placement.size == (output_width, height),
        placement.exclusive_zone == height,
        placement.keyboard == LayerKeyboard::NoFocus,
{
    LayerPlacement {
        namespace: String::from_str(TOPBAR_NAMESPACE),
        layer: LayerShellLayer::Top,
        anchor: LayerAnchor::top_bar(),
        margin: LayerMargin::zero(),
        size: (output_width, height),
        exclusive_zone: height,
        keyboard: LayerKeyboard::NoFocus,
    }
}

} // verus!
