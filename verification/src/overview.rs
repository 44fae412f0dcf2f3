//! Renderer-neutral workspace overview and gesture policy.
//!
//! The compositor remains authoritative for live surfaces and workspace
//! membership. This module consumes snapshots through [`WorkspaceBridge`] and
//! emits typed [`WorkspaceAction`] intent.

use vstd::prelude::*;
use crate::accessibility::{leaf_is, node_is, plain_state, AccessibilityNode, AccessibilityState, SemanticRole};
use crate::seqs::{first_index, lemma_cycle_step, lemma_first_index, lemma_first_index_is};
use crate::text::{decimal, push_decimal};
use crate::tokens::{Color, ControlMetric, FontStyle, Motion, Radius, Spacing, VisualTokenContract};

verus! {

/// Stable workspace identifier shared by shell snapshots and compositor IPC.
#[derive(Debug, Clone, Copy, PartialEq, Eq, Structural, PartialOrd, Ord, Hash)]
pub struct WorkspaceId(pub u32);

impl WorkspaceId {
    /// Construct an ID assigned by the compositor workspace model.
    pub fn new(value: u32) -> (id: Self)
        ensures
            id.0 == value,
    {
        WorkspaceId(value)
    }

    /// Return the transport-friendly numeric ID.
    pub fn get(self) -> (value: u32)
        ensures
            value == self.0,
    {
        self.0
    }
}

/// Stable window identifier owned by the compositor.
#[derive(Debug, Clone, Copy, PartialEq, Eq, Structural, PartialOrd, Ord, Hash)]
pub struct OverviewWindowId(pub u64);

impl OverviewWindowId {
    /// Construct an ID returned by a trusted compositor snapshot adapter.
    pub fn new(value: u64) -> (id: Self)
        ensures
            id.0 == value,
    {
        OverviewWindowId(value)
    }

    /// Return the transport-friendly numeric ID.
    pub fn get(self) -> (value: u64)
        ensures
            value == self.0,
    {
        self.0
    }
}

/// A compositor-owned toplevel projected into the overview.
#[derive(Debug, PartialEq, Eq)]
pub struct OverviewWindowSnapshot {
    /// Stable compositor identity for typed activation and movement intent.
    pub id: OverviewWindowId,
    /// User-visible window title.
    pub title: String,
    /// Application identity or title reported by the compositor adapter.
    pub application: String,
    /// Whether the compositor currently considers this window focused.
    pub focused: bool,
}

/// One workspace and its visible overview cards.
#[derive(Debug, PartialEq, Eq)]
pub struct WorkspaceSnapshot {
    /// Stable workspace ID.
    pub id: WorkspaceId,
    /// User-visible workspace name.
    pub label: String,
    /// Windows belonging to this workspace, in compositor z-order projection.
    pub windows: Vec<OverviewWindowSnapshot>,
}

/// Complete workspace state supplied by a compositor IPC adapter.
#[derive(Debug, PartialEq, Eq)]
pub struct WorkspaceSnapshotSet {
    /// Current compositor-active workspace.
    pub active: WorkspaceId,
    /// All addressable workspaces in visual order.
    pub workspaces: Vec<WorkspaceSnapshot>,
}

/// Whether two workspaces hold the same id, label and windows.
pub open spec fn same_workspace(a: WorkspaceSnapshot, b: WorkspaceSnapshot) -> bool {
    &&& a.id == b.id
    &&& a.label == b.label
    &&& a.windows@ == b.windows@
}

/// Whether two snapshot sets hold the same active id and workspaces.
pub open spec fn same_snapshot_set(a: WorkspaceSnapshotSet, b: WorkspaceSnapshotSet) -> bool {
    &&& a.active == b.active
    &&& a.workspaces@.len() == b.workspaces@.len()
    &&& forall|i: int|
        0 <= i < a.workspaces@.len() ==> same_workspace(#[trigger] a.workspaces@[i], b.workspaces@[i])
}

impl Clone for OverviewWindowSnapshot {
    fn clone(&self) -> (copy: Self)
        ensures
            copy == *self,
    {
        OverviewWindowSnapshot {
            id: self.id,
            title: self.title.clone(),
            application: self.application.clone(),
            focused: self.focused,
        }
    }
}

impl Clone for WorkspaceSnapshot {
    fn clone(&self) -> (copy: Self)
        ensures
            same_workspace(copy, *self),
    {
        let windows = self.windows.clone();
        proof {
            assert(windows@ =~= self.windows@);
        }
        WorkspaceSnapshot { id: self.id, label: self.label.clone(), windows }
    }
}

impl Clone for WorkspaceSnapshotSet {
    fn clone(&self) -> (copy: Self)
        ensures
            same_snapshot_set(copy, *self),
    {
        let workspaces = self.workspaces.clone();
        proof {
            assert forall|i: int| 0 <= i < workspaces@.len() implies same_workspace(
                #[trigger] workspaces@[i],
                self.workspaces@[i],
            ) by {
                assert(cloned::<WorkspaceSnapshot>(self.workspaces[i], workspaces[i]));
            }
        }
        WorkspaceSnapshotSet { active: self.active, workspaces }
    }
}

/// Error returned while constructing or manipulating overview state.
#[derive(Debug, Clone, PartialEq, Eq)]
pub enum OverviewError {
    /// A snapshot contains no workspaces or does not contain its active ID.
    InvalidSnapshot(&'static str),
    /// A requested workspace does not occur in the current snapshot.
    UnknownWorkspace(WorkspaceId),
    /// A requested window does not occur in the named workspace.
    UnknownWindow { workspace: WorkspaceId, window: OverviewWindowId },
    /// A gesture cannot start because there is no adjacent workspace.
    NoAdjacentWorkspace,
    /// A gesture update was received before it began.
    GestureInactive,
}

/// The human-readable description of an overview error.
pub open spec fn error_text(error: OverviewError) -> Seq<char> {
    match error {
        OverviewError::InvalidSnapshot(message) => "invalid workspace snapshot: "@ + message@,
        OverviewError::UnknownWorkspace(workspace) => "unknown workspace "@ + decimal(workspace.0 as nat),
        OverviewError::UnknownWindow { workspace, window } => "window "@ + decimal(window.0 as nat)
            + " is not in workspace "@ + decimal(workspace.0 as nat),
        OverviewError::NoAdjacentWorkspace => "no adjacent workspace for gesture"@,
        OverviewError::GestureInactive => "workspace gesture is not active"@,
    }
}

impl OverviewError {
    /// Human-readable description of the error.
    pub fn message(&self) -> (text: String)
        ensures
            text@ == error_text(*self),
    {
        match self {
            OverviewError::InvalidSnapshot(message) => {
                let mut text = String::from_str("invalid workspace snapshot: ");
                text.append(message);
                text
            },
            OverviewError::UnknownWorkspace(workspace) => {
                let mut text = String::from_str("unknown workspace ");
                push_decimal(&mut text, workspace.0 as u64);
                text
            },
            OverviewError::UnknownWindow { workspace, window } => {
                let mut text = String::from_str("window ");
                push_decimal(&mut text, window.0);
                text.append(" is not in workspace ");
                push_decimal(&mut text, workspace.0 as u64);
                text
            },
            OverviewError::NoAdjacentWorkspace => String::from_str("no adjacent workspace for gesture"),
            OverviewError::GestureInactive => String::from_str("workspace gesture is not active"),
        }
    }
}

/// Whether some workspace in `workspaces` carries `id`.
pub open spec fn has_workspace(workspaces: Seq<WorkspaceSnapshot>, id: WorkspaceId) -> bool {
    exists|i: int| 0 <= i < workspaces.len() && #[trigger] workspaces[i].id == id
}

/// A snapshot the overview can present: at least one workspace, one of which
/// is the active one.
pub open spec fn valid_snapshot(snapshots: WorkspaceSnapshotSet) -> bool {
    &&& snapshots.workspaces@.len() > 0
    &&& has_workspace(snapshots.workspaces@, snapshots.active)
}

/// What is wrong with a snapshot the overview cannot present.
pub open spec fn snapshot_problem(snapshots: WorkspaceSnapshotSet) -> Seq<char> {
    if snapshots.workspaces@.len() == 0 {
        "at least one workspace is required"@
    } else {
        "active workspace does not occur in workspace list"@
    }
}

/// Whether `error` rejects `snapshots` for what is wrong with them.
pub open spec fn rejects_snapshot(error: OverviewError, snapshots: WorkspaceSnapshotSet) -> bool {
    error matches OverviewError::InvalidSnapshot(message) && message@ == snapshot_problem(snapshots)
}

/// Reject a snapshot that has no workspaces or whose active ID is missing.
pub fn validate_snapshot(snapshots: &WorkspaceSnapshotSet) -> (result: Result<(), OverviewError>)
    ensures
        result is Ok <==> valid_snapshot(*snapshots),
        result is Err ==> rejects_snapshot(result->Err_0, *snapshots),
{
    if snapshots.workspaces.len() == 0 {
        return Err(OverviewError::InvalidSnapshot("at least one workspace is required"));
    }
    let mut i: usize = 0;
    while i < snapshots.workspaces.len()
        invariant
            i <= snapshots.workspaces@.len(),
            forall|j: int| 0 <= j < i ==> snapshots.workspaces@[j].id != snapshots.active,
        decreases snapshots.workspaces@.len() - i,
    {
        if snapshots.workspaces[i].id == snapshots.active {
            return Ok(());
        }
        i = i + 1;
    }
    Err(OverviewError::InvalidSnapshot("active workspace does not occur in workspace list"))
}


/// Position of the first workspace carrying `id`, or `-1`.
pub open spec fn workspace_position(workspaces: Seq<WorkspaceSnapshot>, id: WorkspaceId) -> int {
    first_index(workspaces, |w: WorkspaceSnapshot| w.id == id)
}

/// Position of the first window carrying `id`, or `-1`.
pub open spec fn window_position(windows: Seq<OverviewWindowSnapshot>, id: OverviewWindowId) -> int {
    first_index(windows, |w: OverviewWindowSnapshot| w.id == id)
}

/// Find the first workspace with `id` in `workspaces`, scanning from the front.
fn find_workspace(workspaces: &Vec<WorkspaceSnapshot>, id: WorkspaceId) -> (index: Option<usize>)
    ensures
        match index {
            Some(i) => i < workspaces@.len() && i as int == workspace_position(workspaces@, id),
            None => workspace_position(workspaces@, id) == -1,
        },
{
    let ghost p = |w: WorkspaceSnapshot| w.id == id;
    let mut i: usize = 0;
    while i < workspaces.len()
        invariant
            i <= workspaces@.len(),
            p == (|w: WorkspaceSnapshot| w.id == id),
            forall|j: int| 0 <= j < i ==> !p(#[trigger] workspaces@[j]),
        decreases workspaces@.len() - i,
    {
        if workspaces[i].id == id {
            proof {
                lemma_first_index_is(workspaces@, p, i as int);
            }
            return Some(i);
        }
        i = i + 1;
    }
    proof {
        lemma_first_index_is(workspaces@, p, -1);
    }
    None
}


/// Find the first window with `id` in `windows`, scanning from the front.
fn find_window(windows: &Vec<OverviewWindowSnapshot>, id: OverviewWindowId) -> (index: Option<usize>)
    ensures
        match index {
            Some(i) => i < windows@.len() && i as int == window_position(windows@, id),
            None => window_position(windows@, id) == -1,
        },
{
    let ghost p = |w: OverviewWindowSnapshot| w.id == id;
    let mut i: usize = 0;
    while i < windows.len()
        invariant
            i <= windows@.len(),
            p == (|w: OverviewWindowSnapshot| w.id == id),
            forall|j: int| 0 <= j < i ==> !p(#[trigger] windows@[j]),
        decreases windows@.len() - i,
    {
        if windows[i].id == id {
            proof {
                lemma_first_index_is(windows@, p, i as int);
            }
            return Some(i);
        }
        i = i + 1;
    }
    proof {
        lemma_first_index_is(windows@, p, -1);
    }
    None
}

/// Typed actions the shell may request from the compositor.
#[derive(Debug, Clone, Copy, PartialEq, Eq, Structural)]
pub enum WorkspaceAction {
    /// Make a workspace current.
    SwitchWorkspace { workspace: WorkspaceId },
    /// Relocate one compositor-owned window to another workspace.
    MoveWindow { window: OverviewWindowId, workspace: WorkspaceId },
    /// Ask the compositor to focus one visible window.
    ActivateWindow { window: OverviewWindowId },
}

/// Failure reported by a workspace IPC adapter.
#[derive(Debug, Clone, PartialEq, Eq)]
pub struct WorkspaceBridgeError {
    message: String,
}

impl WorkspaceBridgeError {
    /// Create an adapter error suitable for diagnostics and UI feedback.
    pub fn new(message: String) -> (error: Self)
        ensures
            error.message() == message@,
    {
        WorkspaceBridgeError { message }
    }

    /// The diagnostic text carried by the error.
    pub closed spec fn message(&self) -> Seq<char> {
        self.message@
    }

    /// The diagnostic text carried by the error.
    pub fn as_str(&self) -> (text: &str)
        ensures
            text@ == self.message(),
    {
        self.message.as_str()
    }
}

/// The shell/compositor boundary required by overview and gesture models.
///
/// A D-Bus proxy or an in-process fixture implements this trait; the overview
/// reads snapshots through it and hands it typed actions.
pub trait WorkspaceBridge {
    /// Read the compositor's current workspace/window snapshot.
    fn snapshot(&self) -> Result<WorkspaceSnapshotSet, WorkspaceBridgeError>;

    /// The intents this adapter has been asked to deliver, oldest first,
    /// whether or not the compositor took them.
    spec fn requested(&self) -> Seq<WorkspaceAction>;

    /// The intents this adapter has delivered to the compositor, oldest first.
    spec fn dispatched(&self) -> Seq<WorkspaceAction>;

    /// What this adapter answered to each request, oldest first.
    spec fn answers(&self) -> Seq<Result<(), WorkspaceBridgeError>>;

    /// Dispatch one validated shell intent to the compositor adapter. Every
    /// call is recorded as requested; one reported delivered follows those
    /// delivered before it, and a failure delivered nothing.
    fn dispatch(&mut self, action: WorkspaceAction) -> (result: Result<(), WorkspaceBridgeError>)
        ensures
            final(self).requested() == old(self).requested().push(action),
            final(self).answers() == old(self).answers().push(result),
            result is Ok ==> final(self).dispatched() == old(self).dispatched().push(action),
            result is Err ==> final(self).dispatched() == old(self).dispatched(),
    ;
}

/// Visibility state of the overview surface.
#[derive(Debug, Clone, Copy, PartialEq, Eq, Structural)]
pub enum OverviewVisibility {
    /// The regular workspace is presented; no overview surface is requested.
    Hidden,
    /// Overview cards are presented and receive overview keyboard input.
    Visible,
}

/// Selected target inside the overview's keyboard and accessibility model.
#[derive(Debug, Clone, Copy, PartialEq, Eq, Structural)]
pub enum OverviewFocus {
    /// A workspace card is selected.
    Workspace(WorkspaceId),
    /// A window card nested in a workspace is selected.
    Window { workspace: WorkspaceId, window: OverviewWindowId },
}

/// Keyboard input interpreted by the renderer-neutral overview model.
#[derive(Debug, Clone, Copy, PartialEq, Eq, Structural)]
pub enum OverviewKey {
    /// Select the previous workspace card.
    ArrowLeft,
    /// Select the next workspace card.
    ArrowRight,
    /// Select the previous window card across workspace cards.
    ArrowUp,
    /// Select the next window card across workspace cards.
    ArrowDown,
    /// Apply the selected workspace/window action.
    Enter,
    /// Close overview without mutating compositor state.
    Escape,
}

/// Result of overview keyboard handling.
#[derive(Debug, Clone, Copy, PartialEq, Eq, Structural)]
pub enum OverviewOutcome {
    /// Keyboard focus changed within the renderer-neutral model.
    FocusChanged(OverviewFocus),
    /// A typed compositor intent should be dispatched by a bridge.
    Action(WorkspaceAction),
    /// Overview was hidden without an action.
    Hidden,
    /// Input could not apply in the current model state.
    Ignored,
}

/// The workspace a focus target belongs to.
pub open spec fn focus_workspace(focus: OverviewFocus) -> WorkspaceId {
    match focus {
        OverviewFocus::Workspace(workspace) => workspace,
        OverviewFocus::Window { workspace, .. } => workspace,
    }
}

/// Whether the lookups the overview performs find the item `focus` selects:
/// the workspace, or the window inside the first workspace with that ID.
pub open spec fn focus_found(workspaces: Seq<WorkspaceSnapshot>, focus: OverviewFocus) -> bool {
    match focus {
        OverviewFocus::Workspace(workspace) => workspace_position(workspaces, workspace) >= 0,
        OverviewFocus::Window { workspace, window } => {
            let w = workspace_position(workspaces, workspace);
            w >= 0 && window_position(workspaces[w].windows@, window) >= 0
        },
    }
}

/// Whether the snapshot holds the item `focus` selects: a workspace with that
/// ID, or a window with that ID inside a workspace with that ID.
pub open spec fn focus_present(workspaces: Seq<WorkspaceSnapshot>, focus: OverviewFocus) -> bool {
    match focus {
        OverviewFocus::Workspace(workspace) => has_workspace(workspaces, workspace),
        OverviewFocus::Window { workspace, window } => window_pairs(workspaces).contains(
            (workspace, window),
        ),
    }
}

/// Every (workspace, window) pair, workspace by workspace, in visual order.
pub open spec fn window_pairs(workspaces: Seq<WorkspaceSnapshot>) -> Seq<(WorkspaceId, OverviewWindowId)>
    decreases workspaces.len(),
{
    if workspaces.len() == 0 {
        Seq::empty()
    } else {
        window_pairs(workspaces.drop_last()) + workspace_pairs(workspaces.last())
    }
}

/// The (workspace, window) pairs of one workspace.
pub open spec fn workspace_pairs(workspace: WorkspaceSnapshot) -> Seq<(WorkspaceId, OverviewWindowId)> {
    workspace.windows@.map_values(|w: OverviewWindowSnapshot| (workspace.id, w.id))
}

/// Focus after moving across workspace cards.
pub open spec fn next_workspace_focus(
    workspaces: Seq<WorkspaceSnapshot>,
    focus: OverviewFocus,
    previous: bool,
) -> OverviewFocus {
    let position = workspace_position(workspaces, focus_workspace(focus));
    let current = if position >= 0 { position } else { 0 };
    let len = workspaces.len() as int;
    let next = if previous { (current + len - 1) % len } else { (current + 1) % len };
    OverviewFocus::Workspace(workspaces[next].id)
}

/// Focus after moving across window cards, or `None` when there are no windows.
///
/// From a workspace card, moving forward selects that workspace's first window
/// (the first window overall when it has none), and moving back selects the
/// window before it.
pub open spec fn next_window_focus(
    workspaces: Seq<WorkspaceSnapshot>,
    focus: OverviewFocus,
    previous: bool,
) -> Option<OverviewFocus> {
    let pairs = window_pairs(workspaces);
    let len = pairs.len() as int;
    if len == 0 {
        None
    } else {
        let position = match focus {
            OverviewFocus::Window { workspace, window } => first_index(
                pairs,
                |p: (WorkspaceId, OverviewWindowId)| p == (workspace, window),
            ),
            OverviewFocus::Workspace(workspace) => first_index(
                pairs,
                |p: (WorkspaceId, OverviewWindowId)| p.0 == workspace,
            ),
        };
        let current = if position >= 0 { position } else { 0 };
        let next = if focus is Workspace && !previous {
            current
        } else if previous {
            (current + len - 1) % len
        } else {
            (current + 1) % len
        };
        Some(OverviewFocus::Window { workspace: pairs[next].0, window: pairs[next].1 })
    }
}

/// Visibility, focus and outcome after one key, from the state before it.
pub open spec fn key_transition(
    workspaces: Seq<WorkspaceSnapshot>,
    visibility: OverviewVisibility,
    focus: OverviewFocus,
    key: OverviewKey,
) -> (OverviewVisibility, OverviewFocus, OverviewOutcome) {
    if visibility != OverviewVisibility::Visible {
        (visibility, focus, OverviewOutcome::Ignored)
    } else {
        match key {
            OverviewKey::ArrowLeft | OverviewKey::ArrowRight => {
                let next = next_workspace_focus(workspaces, focus, key == OverviewKey::ArrowLeft);
                (visibility, next, OverviewOutcome::FocusChanged(next))
            },
            OverviewKey::ArrowUp | OverviewKey::ArrowDown => {
                match next_window_focus(workspaces, focus, key == OverviewKey::ArrowUp) {
                    Some(next) => (visibility, next, OverviewOutcome::FocusChanged(next)),
                    None => (visibility, focus, OverviewOutcome::Ignored),
                }
            },
            OverviewKey::Enter => (visibility, focus, OverviewOutcome::Action(enter_action(focus))),
            OverviewKey::Escape => (OverviewVisibility::Hidden, focus, OverviewOutcome::Hidden),
        }
    }
}

/// Focus after a refresh: kept while the overview's lookups still find it,
/// otherwise the new active workspace.
pub open spec fn refreshed_focus(snapshots: WorkspaceSnapshotSet, focus: OverviewFocus) -> OverviewFocus {
    if focus_found(snapshots.workspaces@, focus) {
        focus
    } else {
        OverviewFocus::Workspace(snapshots.active)
    }
}

/// The action `Enter` requests for a focus target.
pub open spec fn enter_action(focus: OverviewFocus) -> WorkspaceAction {
    match focus {
        OverviewFocus::Workspace(workspace) => WorkspaceAction::SwitchWorkspace { workspace },
        OverviewFocus::Window { window, .. } => WorkspaceAction::ActivateWindow { window },
    }
}


/// Renderer-neutral workspace overview state.
///
/// The snapshot always holds at least one workspace and the active one, and
/// focus always names an item the snapshot holds.
#[derive(Debug)]
pub struct OverviewModel {
    snapshots: WorkspaceSnapshotSet,
    visibility: OverviewVisibility,
    focus: OverviewFocus,
}

impl OverviewModel {
    #[verifier::type_invariant]
    spec fn well_formed(self) -> bool {
        &&& valid_snapshot(self.snapshots)
        &&& focus_present(self.snapshots.workspaces@, self.focus)
    }

    /// Snapshots currently displayed.
    pub closed spec fn spec_snapshots(self) -> WorkspaceSnapshotSet {
        self.snapshots
    }

    /// Current visibility.
    pub closed spec fn spec_visibility(self) -> OverviewVisibility {
        self.visibility
    }

    /// Current keyboard/accessibility target.
    pub closed spec fn spec_focus(self) -> OverviewFocus {
        self.focus
    }

    /// Create an overview model from a compositor snapshot.
    pub fn new(snapshots: WorkspaceSnapshotSet) -> (result: Result<Self, OverviewError>)
        ensures
            result is Ok <==> valid_snapshot(snapshots),
            result is Err ==> rejects_snapshot(result->Err_0, snapshots),
            result matches Ok(model) ==> {
                &&& model.spec_snapshots() == snapshots
                &&& model.spec_visibility() == OverviewVisibility::Hidden
                &&& model.spec_focus() == OverviewFocus::Workspace(snapshots.active)
            },
    {
        validate_snapshot(&snapshots)?;
        let focus = OverviewFocus::Workspace(snapshots.active);
        Ok(OverviewModel { snapshots, visibility: OverviewVisibility::Hidden, focus })
    }

    /// Return snapshots currently displayed by the overview.
    pub fn snapshots(&self) -> (snapshots: &WorkspaceSnapshotSet)
        ensures
            *snapshots == self.spec_snapshots(),
    {
        &self.snapshots
    }

    /// Return whether the overview is currently visible.
    pub fn visibility(&self) -> (visibility: OverviewVisibility)
        ensures
            visibility == self.spec_visibility(),
    {
        self.visibility
    }

    /// Return the current keyboard/accessibility target.
    pub fn focus(&self) -> (focus: OverviewFocus)
        ensures
            focus == self.spec_focus(),
    {
        self.focus
    }

    /// Replace snapshots after a compositor state update while preserving focus
    /// whenever the selected item is still present.
    pub fn refresh(&mut self, snapshots: WorkspaceSnapshotSet) -> (result: Result<(), OverviewError>)
        ensures
            result is Ok <==> valid_snapshot(snapshots),
            result is Err ==> {
                &&& rejects_snapshot(result->Err_0, snapshots)
                &&& final(self).spec_snapshots() == old(self).spec_snapshots()
                &&& final(self).spec_focus() == old(self).spec_focus()
                &&& final(self).spec_visibility() == old(self).spec_visibility()
            },
            result is Ok ==> {
                &&& final(self).spec_snapshots() == snapshots
                &&& final(self).spec_visibility() == old(self).spec_visibility()
                &&& final(self).spec_focus() == refreshed_focus(
                    snapshots,
                    old(self).spec_focus(),
                )
            },
    {
        validate_snapshot(&snapshots)?;
        let old_focus = self.focus;
        let focus = match old_focus {
            OverviewFocus::Workspace(workspace) => {
                if find_workspace(&snapshots.workspaces, workspace).is_some() {
                    old_focus
                } else {
                    OverviewFocus::Workspace(snapshots.active)
                }
            },
            OverviewFocus::Window { workspace, window } => {
                match find_workspace(&snapshots.workspaces, workspace) {
                    Some(index) => {
                        if find_window(&snapshots.workspaces[index].windows, window).is_some() {
                            old_focus
                        } else {
                            OverviewFocus::Workspace(snapshots.active)
                        }
                    },
                    None => OverviewFocus::Workspace(snapshots.active),
                }
            },
        };
        proof {
            if focus_found(snapshots.workspaces@, focus) {
                lemma_found_is_present(snapshots.workspaces@, focus);
            }
        }
        let visibility = self.visibility;
        *self = OverviewModel { snapshots, visibility, focus };
        Ok(())
    }

    /// Populate the model from the shell/compositor bridge.
    ///
    /// A snapshot the bridge cannot read, or one the model rejects, leaves the
    /// model as it was.
    pub fn refresh_from<B: WorkspaceBridge>(&mut self, bridge: &B) -> (result: Result<
        (),
        WorkspaceBridgeError,
    >)
        ensures
            result is Err ==> {
                &&& final(self).spec_snapshots() == old(self).spec_snapshots()
                &&& final(self).spec_focus() == old(self).spec_focus()
                &&& final(self).spec_visibility() == old(self).spec_visibility()
                &&& (call_ensures(B::snapshot, (bridge,), Err(result->Err_0)) || exists|
                    snapshots: WorkspaceSnapshotSet,
                |
                    #[trigger] call_ensures(B::snapshot, (bridge,), Ok(snapshots)) && !valid_snapshot(
                        snapshots,
                    ) && result->Err_0.message() == "invalid workspace snapshot: "@ + snapshot_problem(
                        snapshots,
                    ))
            },
            result is Ok ==> {
                &&& call_ensures(B::snapshot, (bridge,), Ok(final(self).spec_snapshots()))
                &&& valid_snapshot(final(self).spec_snapshots())
                &&& final(self).spec_visibility() == old(self).spec_visibility()
                &&& final(self).spec_focus() == refreshed_focus(
                    final(self).spec_snapshots(),
                    old(self).spec_focus(),
                )
            },
    {
        let snapshots = bridge.snapshot()?;
        match self.refresh(snapshots) {
            Ok(()) => Ok(()),
            Err(error) => Err(WorkspaceBridgeError::new(error.message())),
        }
    }

    /// Enter overview without directly mutating compositor workspace state.
    pub fn enter(&mut self)
        ensures
            final(self).spec_snapshots() == old(self).spec_snapshots(),
            final(self).spec_visibility() == OverviewVisibility::Visible,
            final(self).spec_focus() == OverviewFocus::Workspace(old(self).spec_snapshots().active),
    {
        proof {
            use_type_invariant(&*self);
        }
        self.visibility = OverviewVisibility::Visible;
        self.focus = OverviewFocus::Workspace(self.snapshots.active);
    }

    /// Exit overview without directly mutating compositor workspace state.
    pub fn exit(&mut self)
        ensures
            final(self).spec_snapshots() == old(self).spec_snapshots(),
            final(self).spec_visibility() == OverviewVisibility::Hidden,
            final(self).spec_focus() == old(self).spec_focus(),
    {
        proof {
            use_type_invariant(&*self);
        }
        self.visibility = OverviewVisibility::Hidden;
    }

    /// Dispatch a typed overview action through an explicit compositor bridge.
    pub fn dispatch<B: WorkspaceBridge>(&self, bridge: &mut B, action: WorkspaceAction) -> (result:
        Result<(), WorkspaceBridgeError>)
        ensures
            final(bridge).requested() == old(bridge).requested().push(action),
            final(bridge).answers() == old(bridge).answers().push(result),
            result is Ok ==> final(bridge).dispatched() == old(bridge).dispatched().push(action),
            result is Err ==> final(bridge).dispatched() == old(bridge).dispatched(),
    {
        bridge.dispatch(action)
    }

    /// Apply overview keyboard navigation and return any typed intent.
    pub fn handle_key(&mut self, key: OverviewKey) -> (outcome: OverviewOutcome)
        ensures
            final(self).spec_snapshots() == old(self).spec_snapshots(),
            (final(self).spec_visibility(), final(self).spec_focus(), outcome) == key_transition(
                old(self).spec_snapshots().workspaces@,
                old(self).spec_visibility(),
                old(self).spec_focus(),
                key,
            ),
    {
        if self.visibility != OverviewVisibility::Visible {
            return OverviewOutcome::Ignored;
        }
        match key {
            OverviewKey::ArrowLeft => self.move_workspace_focus(true),
            OverviewKey::ArrowRight => self.move_workspace_focus(false),
            OverviewKey::ArrowUp => self.move_window_focus(true),
            OverviewKey::ArrowDown => self.move_window_focus(false),
            OverviewKey::Enter => match self.focus {
                OverviewFocus::Workspace(workspace) => OverviewOutcome::Action(
                    WorkspaceAction::SwitchWorkspace { workspace },
                ),
                OverviewFocus::Window { window, .. } => OverviewOutcome::Action(
                    WorkspaceAction::ActivateWindow { window },
                ),
            },
            OverviewKey::Escape => {
                self.exit();
                OverviewOutcome::Hidden
            },
        }
    }

    fn move_workspace_focus(&mut self, previous: bool) -> (outcome: OverviewOutcome)
        ensures
            final(self).spec_snapshots() == old(self).spec_snapshots(),
            final(self).spec_visibility() == old(self).spec_visibility(),
            final(self).spec_focus() == next_workspace_focus(
                old(self).spec_snapshots().workspaces@,
                old(self).spec_focus(),
                previous,
            ),
            outcome == OverviewOutcome::FocusChanged(final(self).spec_focus()),
    {
        proof {
            use_type_invariant(&*self);
        }
        let current = match self.focus {
            OverviewFocus::Workspace(workspace) => workspace,
            OverviewFocus::Window { workspace, .. } => workspace,
        };
        let current_index = match find_workspace(&self.snapshots.workspaces, current) {
            Some(index) => index,
            None => 0,
        };
        let len = self.snapshots.workspaces.len();
        let next_index = if previous {
            if current_index == 0 {
                len - 1
            } else {
                current_index - 1
            }
        } else if current_index + 1 == len {
            0
        } else {
            current_index + 1
        };
        proof {
            lemma_cycle_step(current_index as int, len as int);
        }
        let focus = OverviewFocus::Workspace(self.snapshots.workspaces[next_index].id);
        proof {
            assert(has_workspace(self.snapshots.workspaces@, self.snapshots.workspaces@[next_index as int].id));
        }
        self.focus = focus;
        OverviewOutcome::FocusChanged(focus)
    }

    fn move_window_focus(&mut self, previous: bool) -> (outcome: OverviewOutcome)
        ensures
            final(self).spec_snapshots() == old(self).spec_snapshots(),
            final(self).spec_visibility() == old(self).spec_visibility(),
            match next_window_focus(old(self).spec_snapshots().workspaces@, old(self).spec_focus(), previous) {
                Some(next) => final(self).spec_focus() == next && outcome == OverviewOutcome::FocusChanged(next),
                None => final(self).spec_focus() == old(self).spec_focus() && outcome == OverviewOutcome::Ignored,
            },
    {
        proof {
            use_type_invariant(&*self);
        }
        let windows = collect_window_pairs(&self.snapshots.workspaces);
        if windows.len() == 0 {
            return OverviewOutcome::Ignored;
        }
        let ghost pairs = windows@;
        let len = windows.len();
        let mut current_index: usize = 0;
        let mut i: usize = 0;
        match self.focus {
            OverviewFocus::Window { workspace, window } => {
                let ghost p = |q: (WorkspaceId, OverviewWindowId)| q == (workspace, window);
                while i < len
                    invariant
                        len == pairs.len(),
                        pairs == windows@,
                        i <= len,
                        p == (|q: (WorkspaceId, OverviewWindowId)| q == (workspace, window)),
                        forall|j: int| 0 <= j < i ==> !p(#[trigger] pairs[j]),
                    ensures
                        i <= len,
                        forall|j: int| 0 <= j < i ==> !p(#[trigger] pairs[j]),
                        i < len ==> p(pairs[i as int]),
                    decreases len - i,
                {
                    if windows[i].0 == workspace && windows[i].1 == window {
                        break;
                    }
                    i = i + 1;
                }
                proof {
                    if i < len {
                        lemma_first_index_is(pairs, p, i as int);
                    } else {
                        lemma_first_index_is(pairs, p, -1);
                    }
                }
            },
            OverviewFocus::Workspace(workspace) => {
                let ghost p = |q: (WorkspaceId, OverviewWindowId)| q.0 == workspace;
                while i < len
                    invariant
                        len == pairs.len(),
                        pairs == windows@,
                        i <= len,
                        p == (|q: (WorkspaceId, OverviewWindowId)| q.0 == workspace),
                        forall|j: int| 0 <= j < i ==> !p(#[trigger] pairs[j]),
                    ensures
                        i <= len,
                        forall|j: int| 0 <= j < i ==> !p(#[trigger] pairs[j]),
                        i < len ==> p(pairs[i as int]),
                    decreases len - i,
                {
                    if windows[i].0 == workspace {
                        break;
                    }
                    i = i + 1;
                }
                proof {
                    if i < len {
                        lemma_first_index_is(pairs, p, i as int);
                    } else {
                        lemma_first_index_is(pairs, p, -1);
                    }
                }
            },
        }
        if i < len {
            current_index = i;
        }
        let from_workspace = match self.focus {
            OverviewFocus::Workspace(_) => true,
            OverviewFocus::Window { .. } => false,
        };
        let next_index = if from_workspace && !previous {
            current_index
        } else if previous {
            if current_index == 0 {
                len - 1
            } else {
                current_index - 1
            }
        } else if current_index + 1 == len {
            0
        } else {
            current_index + 1
        };
        proof {
            lemma_cycle_step(current_index as int, len as int);
        }
        let (workspace, window) = windows[next_index];
        let focus = OverviewFocus::Window { workspace, window };
        proof {
            assert(pairs[next_index as int] == (workspace, window));
            assert(window_pairs(self.snapshots.workspaces@).contains((workspace, window)));
        }
        self.focus = focus;
        OverviewOutcome::FocusChanged(focus)
    }

    /// Move the selected window to `workspace`, returning typed compositor intent.
    pub fn move_focused_window(&self, workspace: WorkspaceId) -> (result: Result<
        WorkspaceAction,
        OverviewError,
    >)
        ensures
            workspace_position(self.spec_snapshots().workspaces@, workspace) == -1 ==> result
                == Err::<WorkspaceAction, OverviewError>(OverviewError::UnknownWorkspace(workspace)),
            workspace_position(self.spec_snapshots().workspaces@, workspace) >= 0 ==> match self.spec_focus() {
                OverviewFocus::Window { window, .. } => result == Ok::<
                    WorkspaceAction,
                    OverviewError,
                >(WorkspaceAction::MoveWindow { window, workspace }),
                OverviewFocus::Workspace(_) => result matches Err(OverviewError::InvalidSnapshot(message))
                    && message@ == "select a window before moving it to another workspace"@,
            },
    {
        if find_workspace(&self.snapshots.workspaces, workspace).is_none() {
            return Err(OverviewError::UnknownWorkspace(workspace));
        }
        match self.focus {
            OverviewFocus::Window { window, .. } => Ok(WorkspaceAction::MoveWindow { window, workspace }),
            OverviewFocus::Workspace(_) => Err(
                OverviewError::InvalidSnapshot("select a window before moving it to another workspace"),
            ),
        }
    }
}


/// A window of workspace `i` appears, paired with that workspace's ID, among
/// the window pairs.
pub proof fn lemma_window_pairs_contains(workspaces: Seq<WorkspaceSnapshot>, i: int, j: int)
    requires
        0 <= i < workspaces.len(),
        0 <= j < workspaces[i].windows@.len(),
    ensures
        window_pairs(workspaces).contains((workspaces[i].id, workspaces[i].windows@[j].id)),
    decreases workspaces.len(),
{
    let init = workspaces.drop_last();
    let pair = (workspaces[i].id, workspaces[i].windows@[j].id);
    let before = window_pairs(init);
    let last = workspace_pairs(workspaces.last());
    assert(window_pairs(workspaces) == before + last);
    if i == workspaces.len() - 1 {
        assert((before + last)[before.len() + j] == pair);
    } else {
        assert(init[i] == workspaces[i]);
        lemma_window_pairs_contains(init, i, j);
        let k = choose|k: int| 0 <= k < before.len() && before[k] == pair;
        assert((before + last)[k] == pair);
    }
}

/// Every window pair names a window of a workspace carrying that ID.
pub proof fn lemma_window_pairs_member(workspaces: Seq<WorkspaceSnapshot>, k: int)
    requires
        0 <= k < window_pairs(workspaces).len(),
    ensures
        exists|i: int, j: int|
            0 <= i < workspaces.len() && 0 <= j < workspaces[i].windows@.len()
                && #[trigger] workspaces[i].windows@[j].id == window_pairs(workspaces)[k].1
                && workspaces[i].id == window_pairs(workspaces)[k].0,
    decreases workspaces.len(),
{
    let init = workspaces.drop_last();
    let before = window_pairs(init);
    let last = workspace_pairs(workspaces.last());
    let n = workspaces.len() - 1;
    if k < before.len() {
        lemma_window_pairs_member(init, k);
        let (i, j) = choose|i: int, j: int|
            0 <= i < init.len() && 0 <= j < init[i].windows@.len()
                && #[trigger] init[i].windows@[j].id == before[k].1 && init[i].id == before[k].0;
        assert(init[i] == workspaces[i]);
        assert((before + last)[k] == before[k]);
    } else {
        let j = k - before.len();
        assert((before + last)[k] == last[j]);
        assert(workspaces[n].windows@[j].id == window_pairs(workspaces)[k].1);
    }
}

/// What the overview's lookups find is present in the snapshot.
pub proof fn lemma_found_is_present(workspaces: Seq<WorkspaceSnapshot>, focus: OverviewFocus)
    requires
        focus_found(workspaces, focus),
    ensures
        focus_present(workspaces, focus),
{
    match focus {
        OverviewFocus::Workspace(workspace) => {
            let p = |w: WorkspaceSnapshot| w.id == workspace;
            lemma_first_index(workspaces, p);
            let i = workspace_position(workspaces, workspace);
            assert(workspaces[i].id == workspace);
        },
        OverviewFocus::Window { workspace, window } => {
            let i = workspace_position(workspaces, workspace);
            lemma_first_index(workspaces, |w: WorkspaceSnapshot| w.id == workspace);
            let wins = workspaces[i].windows@;
            lemma_first_index(wins, |w: OverviewWindowSnapshot| w.id == window);
            let j = window_position(wins, window);
            lemma_window_pairs_contains(workspaces, i, j);
        },
    }
}

/// Collect the (workspace, window) pairs of a snapshot in visual order.
fn collect_window_pairs(workspaces: &Vec<WorkspaceSnapshot>) -> (pairs: Vec<(WorkspaceId, OverviewWindowId)>)
    ensures
        pairs@ == window_pairs(workspaces@),
{
    let mut pairs: Vec<(WorkspaceId, OverviewWindowId)> = Vec::new();
    let mut i: usize = 0;
    while i < workspaces.len()
        invariant
            i <= workspaces@.len(),
            pairs@ == window_pairs(workspaces@.take(i as int)),
        decreases workspaces@.len() - i,
    {
        let workspace = &workspaces[i];
        let ghost start = pairs@;
        let mut j: usize = 0;
        while j < workspace.windows.len()
            invariant
                i < workspaces@.len(),
                *workspace == workspaces@[i as int],
                j <= workspace.windows@.len(),
                pairs@ == start + workspace_pairs(*workspace).take(j as int),
            decreases workspace.windows@.len() - j,
        {
            pairs.push((workspace.id, workspace.windows[j].id));
            proof {
                assert(workspace_pairs(*workspace).take(j + 1) =~= workspace_pairs(*workspace).take(
                    j as int,
                ).push((workspace.id, workspace.windows@[j as int].id)));
            }
            j = j + 1;
        }
        proof {
            assert(workspace_pairs(*workspace).take(j as int) =~= workspace_pairs(*workspace));
            assert(workspaces@.take(i + 1).drop_last() =~= workspaces@.take(i as int));
            assert(workspaces@.take(i + 1).last() == workspaces@[i as int]);
        }
        i = i + 1;
    }
    proof {
        assert(workspaces@.take(i as int) =~= workspaces@);
    }
    pairs
}

/// Direction of a four-finger workspace gesture.
#[derive(Debug, Clone, Copy, PartialEq, Eq, Structural)]
pub enum GestureDirection {
    /// Reveal the immediately preceding workspace.
    Previous,
    /// Reveal the immediately following workspace.
    Next,
}

/// Phase of a touchpad-driven workspace transition.
///
/// Finger progress and velocity are continuous input owned by the input
/// adapter; this is the discrete part of the gesture that decides which
/// workspace is revealed and which one the gesture settles on.
#[derive(Debug, Clone, Copy, PartialEq, Eq, Structural)]
pub enum WorkspaceGesturePhase {
    /// No gesture owns workspace transition progress.
    Idle,
    /// Finger position directly owns transition progress from `from` to `to`.
    Tracking { from: WorkspaceId, to: WorkspaceId },
    /// The gesture ended or was cancelled and settles on `target`.
    Settling { from: WorkspaceId, to: WorkspaceId, target: WorkspaceId },
}

/// The workspace a gesture from position `index` reveals, if any.
pub open spec fn adjacent_index(index: int, len: int, direction: GestureDirection) -> Option<int> {
    match direction {
        GestureDirection::Previous => if index >= 1 { Some(index - 1) } else { None },
        GestureDirection::Next => if index + 1 < len { Some(index + 1) } else { None },
    }
}

impl WorkspaceGesturePhase {
    /// Start an interactive transition toward an adjacent workspace.
    ///
    /// A new gesture interrupts a settle in progress. On error the phase is
    /// left as it was.
    pub fn begin(
        &mut self,
        current: WorkspaceId,
        direction: GestureDirection,
        ordered_workspaces: &[WorkspaceId],
    ) -> (result: Result<(), OverviewError>)
        ensures
            ({
                let index = first_index(ordered_workspaces@, |w: WorkspaceId| w == current);
                if index == -1 {
                    result == Err::<(), OverviewError>(OverviewError::UnknownWorkspace(current))
                        && *final(self) == *old(self)
                } else {
                    match adjacent_index(index, ordered_workspaces@.len() as int, direction) {
                        Some(target) => result is Ok && *final(self)
                            == WorkspaceGesturePhase::Tracking {
                            from: current,
                            to: ordered_workspaces@[target],
                        },
                        None => result == Err::<(), OverviewError>(
                            OverviewError::NoAdjacentWorkspace,
                        ) && *final(self) == *old(self),
                    }
                }
            }),
    {
        let ghost p = |w: WorkspaceId| w == current;
        let mut index: usize = 0;
        while index < ordered_workspaces.len()
            invariant
                index <= ordered_workspaces@.len(),
                p == (|w: WorkspaceId| w == current),
                forall|j: int| 0 <= j < index ==> !p(#[trigger] ordered_workspaces@[j]),
            ensures
                index <= ordered_workspaces@.len(),
                forall|j: int| 0 <= j < index ==> !p(#[trigger] ordered_workspaces@[j]),
                index < ordered_workspaces@.len() ==> p(ordered_workspaces@[index as int]),
            decreases ordered_workspaces@.len() - index,
        {
            if ordered_workspaces[index] == current {
                break;
            }
            index = index + 1;
        }
        if index == ordered_workspaces.len() {
            proof {
                lemma_first_index_is(ordered_workspaces@, p, -1);
            }
            return Err(OverviewError::UnknownWorkspace(current));
        }
        proof {
            lemma_first_index_is(ordered_workspaces@, p, index as int);
        }
        let target_index = match direction {
            GestureDirection::Previous => {
                if index == 0 {
                    return Err(OverviewError::NoAdjacentWorkspace);
                }
                index - 1
            },
            GestureDirection::Next => {
                if index + 1 >= ordered_workspaces.len() {
                    return Err(OverviewError::NoAdjacentWorkspace);
                }
                index + 1
            },
        };
        *self = WorkspaceGesturePhase::Tracking { from: current, to: ordered_workspaces[target_index] };
        Ok(())
    }

    /// Check that a tracking update applies: only a tracking gesture takes one.
    pub fn update(&self) -> (result: Result<(), OverviewError>)
        ensures
            result is Ok <==> *self is Tracking,
            result is Err ==> result == Err::<(), OverviewError>(OverviewError::GestureInactive),
    {
        match self {
            WorkspaceGesturePhase::Tracking { .. } => Ok(()),
            _ => Err(OverviewError::GestureInactive),
        }
    }

    /// Settle the active gesture. A cancelled gesture, or one released short
    /// of the progress threshold and without a fling past the velocity
    /// threshold (`short_of_threshold`), returns to its source workspace;
    /// any other release carries through to the revealed workspace.
    pub fn settle(&mut self, cancelled: bool, short_of_threshold: bool) -> (result: Result<
        WorkspaceId,
        OverviewError,
    >)
        ensures
            match *old(self) {
                WorkspaceGesturePhase::Tracking { from, to } => {
                    let target = if cancelled || short_of_threshold {
                        from
                    } else {
                        to
                    };
                    result == Ok::<WorkspaceId, OverviewError>(target) && *final(self)
                        == WorkspaceGesturePhase::Settling { from, to, target }
                },
                _ => result == Err::<WorkspaceId, OverviewError>(OverviewError::GestureInactive)
                    && *final(self) == *old(self),
            },
    {
        match *self {
            WorkspaceGesturePhase::Tracking { from, to } => {
                let target = if cancelled || short_of_threshold {
                    from
                } else {
                    to
                };
                *self = WorkspaceGesturePhase::Settling { from, to, target };
                Ok(target)
            },
            _ => Err(OverviewError::GestureInactive),
        }
    }

    /// Finish a renderer-side settle and return the selected workspace action.
    pub fn complete_settle(&mut self) -> (result: Result<WorkspaceAction, OverviewError>)
        ensures
            match *old(self) {
                WorkspaceGesturePhase::Settling { target, .. } => result == Ok::<
                    WorkspaceAction,
                    OverviewError,
                >(WorkspaceAction::SwitchWorkspace { workspace: target }) && *final(self)
                    == WorkspaceGesturePhase::Idle,
                _ => result == Err::<WorkspaceAction, OverviewError>(
                    OverviewError::GestureInactive,
                ) && *final(self) == *old(self),
            },
    {
        match *self {
            WorkspaceGesturePhase::Settling { target, .. } => {
                *self = WorkspaceGesturePhase::Idle;
                Ok(WorkspaceAction::SwitchWorkspace { workspace: target })
            },
            _ => Err(OverviewError::GestureInactive),
        }
    }
}

/// No two workspaces share an ID.
pub open spec fn distinct_workspace_ids(workspaces: Seq<WorkspaceSnapshot>) -> bool {
    forall|i: int, j: int|
        0 <= i < workspaces.len() && 0 <= j < workspaces.len() && i != j ==> #[trigger] workspaces[i].id
            != #[trigger] workspaces[j].id
}

/// With distinct IDs, the position of a workspace's own ID is its index.
pub proof fn lemma_workspace_position_of_index(workspaces: Seq<WorkspaceSnapshot>, i: int)
    requires
        distinct_workspace_ids(workspaces),
        0 <= i < workspaces.len(),
    ensures
        workspace_position(workspaces, workspaces[i].id) == i,
{
    let id = workspaces[i].id;
    let p = |w: WorkspaceSnapshot| w.id == id;
    assert forall|j: int| 0 <= j < workspaces.len() && (i == -1 || j < i) implies !p(
        #[trigger] workspaces[j],
    ) by {
        assert(workspaces[j].id != workspaces[i].id);
    }
    lemma_first_index_is(workspaces, p, i);
}

/// Moving to the next workspace card and back returns to the card where the
/// focus started, and so does moving back and then forward, when workspace IDs
/// are distinct.
pub proof fn lemma_workspace_focus_round_trip(
    workspaces: Seq<WorkspaceSnapshot>,
    focus: OverviewFocus,
)
    requires
        workspaces.len() > 0,
        distinct_workspace_ids(workspaces),
        focus is Workspace,
        has_workspace(workspaces, focus_workspace(focus)),
    ensures
        next_workspace_focus(workspaces, next_workspace_focus(workspaces, focus, false), true)
            == focus,
        next_workspace_focus(workspaces, next_workspace_focus(workspaces, focus, true), false)
            == focus,
{
    let l = workspaces.len() as int;
    let i = choose|i: int| 0 <= i < workspaces.len() && #[trigger] workspaces[i].id == focus_workspace(focus);
    lemma_workspace_position_of_index(workspaces, i);
    lemma_cycle_step(i, l);
    let forward = (i + 1) % l;
    let back = (i + l - 1) % l;
    lemma_workspace_position_of_index(workspaces, forward);
    lemma_workspace_position_of_index(workspaces, back);
    lemma_cycle_step(forward, l);
    lemma_cycle_step(back, l);
}

/// With distinct window pairs, the position of a pair is its index.
pub proof fn lemma_pair_position_of_index(pairs: Seq<(WorkspaceId, OverviewWindowId)>, k: int)
    requires
        pairs.no_duplicates(),
        0 <= k < pairs.len(),
    ensures
        first_index(pairs, |q: (WorkspaceId, OverviewWindowId)| q == pairs[k]) == k,
{
    let target = pairs[k];
    let p = |q: (WorkspaceId, OverviewWindowId)| q == target;
    assert forall|j: int| 0 <= j < pairs.len() && (k == -1 || j < k) implies !p(#[trigger] pairs[j]) by {
        assert(pairs[j] != pairs[k]);
    }
    lemma_first_index_is(pairs, p, k);
    assert(p =~= (|q: (WorkspaceId, OverviewWindowId)| q == pairs[k]));
}

/// Moving to the next window card and back returns to the window where the
/// focus started, and so does moving back and then forward, when no
/// (workspace, window) pair repeats.
pub proof fn lemma_window_focus_round_trip(workspaces: Seq<WorkspaceSnapshot>, focus: OverviewFocus)
    requires
        window_pairs(workspaces).no_duplicates(),
        focus is Window,
        focus_present(workspaces, focus),
    ensures
        next_window_focus(workspaces, focus, false) matches Some(forward) && next_window_focus(
            workspaces,
            forward,
            true,
        ) == Some(focus),
        next_window_focus(workspaces, focus, true) matches Some(back) && next_window_focus(
            workspaces,
            back,
            false,
        ) == Some(focus),
{
    let pairs = window_pairs(workspaces);
    let l = pairs.len() as int;
    let (w, win) = match focus {
        OverviewFocus::Window { workspace, window } => (workspace, window),
        _ => arbitrary(),
    };
    let k = choose|k: int| 0 <= k < pairs.len() && pairs[k] == (w, win);
    lemma_pair_position_of_index(pairs, k);
    assert((|q: (WorkspaceId, OverviewWindowId)| q == (w, win)) == (|q: (WorkspaceId, OverviewWindowId)|
        q == pairs[k]));
    lemma_cycle_step(k, l);
    let forward = (k + 1) % l;
    let back = (k + l - 1) % l;
    lemma_pair_position_of_index(pairs, forward);
    lemma_pair_position_of_index(pairs, back);
    assert((|q: (WorkspaceId, OverviewWindowId)| q == (pairs[forward].0, pairs[forward].1)) == (|
        q: (WorkspaceId, OverviewWindowId),
    | q == pairs[forward]));
    assert((|q: (WorkspaceId, OverviewWindowId)| q == (pairs[back].0, pairs[back].1)) == (|
        q: (WorkspaceId, OverviewWindowId),
    | q == pairs[back]));
    lemma_cycle_step(forward, l);
    lemma_cycle_step(back, l);
}

/// A hidden overview ignores every key and changes nothing; a visible one
/// hides on Escape without moving focus or producing an action.
pub proof fn lemma_hidden_ignores_and_escape_hides(
    workspaces: Seq<WorkspaceSnapshot>,
    focus: OverviewFocus,
    key: OverviewKey,
)
    ensures
        key_transition(workspaces, OverviewVisibility::Hidden, focus, key) == (
            OverviewVisibility::Hidden,
            focus,
            OverviewOutcome::Ignored,
        ),
        key_transition(workspaces, OverviewVisibility::Visible, focus, OverviewKey::Escape) == (
            OverviewVisibility::Hidden,
            focus,
            OverviewOutcome::Hidden,
        ),
{
}

/// The node of one window card in `workspace`.
pub open spec fn window_node_is(
    node: AccessibilityNode,
    workspace: WorkspaceId,
    window: OverviewWindowSnapshot,
    focus: OverviewFocus,
) -> bool {
    leaf_is(
        node,
        "window-"@ + decimal(window.id.0 as nat),
        SemanticRole::Button,
        window.title@,
        Some(window.application@),
        AccessibilityState {
            focused: focus == (OverviewFocus::Window { workspace, window: window.id }),
            selected: window.focused,
            disabled: false,
            editable: false,
        },
    )
}

/// The node of one workspace card, with one child per window.
pub open spec fn workspace_node_is(
    node: AccessibilityNode,
    workspace: WorkspaceSnapshot,
    active: WorkspaceId,
    focus: OverviewFocus,
) -> bool {
    &&& node_is(
        node,
        "workspace-"@ + decimal(workspace.id.0 as nat),
        SemanticRole::Button,
        workspace.label@,
        Some(decimal(workspace.windows@.len()) + " windows"@),
        AccessibilityState {
            focused: focus == OverviewFocus::Workspace(workspace.id),
            selected: active == workspace.id,
            disabled: false,
            editable: false,
        },
    )
    &&& node.children@.len() == workspace.windows@.len()
    &&& forall|j: int|
        0 <= j < workspace.windows@.len() ==> window_node_is(
            #[trigger] node.children@[j],
            workspace.id,
            workspace.windows@[j],
            focus,
        )
}

/// The value the overview's root node reports.
pub open spec fn visibility_text(visibility: OverviewVisibility) -> Seq<char> {
    match visibility {
        OverviewVisibility::Hidden => "hidden"@,
        OverviewVisibility::Visible => "visible"@,
    }
}

fn window_node(workspace: WorkspaceId, window: &OverviewWindowSnapshot, focus: OverviewFocus) -> (node:
    AccessibilityNode)
    ensures
        window_node_is(node, workspace, *window, focus),
{
    let mut id = String::from_str("window-");
    push_decimal(&mut id, window.id.0);
    let focused = match focus {
        OverviewFocus::Window { workspace: w, window: f } => w == workspace && f == window.id,
        OverviewFocus::Workspace(_) => false,
    };
    AccessibilityNode {
        id,
        role: SemanticRole::Button,
        label: window.title.clone(),
        value: Some(window.application.clone()),
        state: AccessibilityState { focused, selected: window.focused, disabled: false, editable: false },
        children: Vec::new(),
    }
}

fn workspace_node(workspace: &WorkspaceSnapshot, active: WorkspaceId, focus: OverviewFocus) -> (node:
    AccessibilityNode)
    ensures
        workspace_node_is(node, *workspace, active, focus),
{
    let mut children: Vec<AccessibilityNode> = Vec::new();
    let mut j: usize = 0;
    while j < workspace.windows.len()
        invariant
            j <= workspace.windows@.len(),
            children@.len() == j,
            forall|a: int|
                0 <= a < j ==> window_node_is(#[trigger] children@[a], workspace.id, workspace.windows@[a], focus),
        decreases workspace.windows@.len() - j,
    {
        children.push(window_node(workspace.id, &workspace.windows[j], focus));
        j = j + 1;
    }
    let mut id = String::from_str("workspace-");
    push_decimal(&mut id, workspace.id.0 as u64);
    let mut value = String::new();
    push_decimal(&mut value, workspace.windows.len() as u64);
    value.append(" windows");
    let focused = match focus {
        OverviewFocus::Workspace(w) => w == workspace.id,
        OverviewFocus::Window { .. } => false,
    };
    AccessibilityNode {
        id,
        role: SemanticRole::Button,
        label: workspace.label.clone(),
        value: Some(value),
        state: AccessibilityState { focused, selected: active == workspace.id, disabled: false, editable: false },
        children,
    }
}

impl OverviewModel {
    /// The token roles the overview is drawn with: the full-screen surface,
    /// title typography, and workspace motion.
    pub fn visual_tokens(&self) -> (tokens: VisualTokenContract)
        ensures
            tokens == (VisualTokenContract {
                background: Color::Surface,
                foreground: Color::TextPrimary,
                padding: Spacing::Lg,
                radius: Radius::Md,
                metric: ControlMetric::Toolbar,
                motion: Motion::Workspace,
                typography: FontStyle::Title,
            }),
    {
        VisualTokenContract {
            background: Color::Surface,
            foreground: Color::TextPrimary,
            padding: Spacing::Lg,
            radius: Radius::Md,
            metric: ControlMetric::Toolbar,
            motion: Motion::Workspace,
            typography: FontStyle::Title,
        }
    }

    /// The semantic tree for renderer and accessibility adapters: the
    /// overview, one button per workspace in visual order, and one button per
    /// window of each.
    pub fn accessibility_tree(&self) -> (tree: AccessibilityNode)
        ensures
            node_is(
                tree,
                "overview"@,
                SemanticRole::Group,
                "Workspace overview"@,
                Some(visibility_text(self.spec_visibility())),
                plain_state(),
            ),
            tree.children@.len() == self.spec_snapshots().workspaces@.len(),
            forall|i: int|
                0 <= i < self.spec_snapshots().workspaces@.len() ==> workspace_node_is(
                    #[trigger] tree.children@[i],
                    self.spec_snapshots().workspaces@[i],
                    self.spec_snapshots().active,
                    self.spec_focus(),
                ),
    {
        let workspaces = &self.snapshots.workspaces;
        let mut children: Vec<AccessibilityNode> = Vec::new();
        let mut i: usize = 0;
        while i < workspaces.len()
            invariant
                i <= workspaces@.len(),
                children@.len() == i,
                forall|a: int|
                    0 <= a < i ==> workspace_node_is(
                        #[trigger] children@[a],
                        workspaces@[a],
                        self.snapshots.active,
                        self.focus,
                    ),
            decreases workspaces@.len() - i,
        {
            children.push(workspace_node(&workspaces[i], self.snapshots.active, self.focus));
            i = i + 1;
        }
        let value = match self.visibility {
            OverviewVisibility::Hidden => String::from_str("hidden"),
            OverviewVisibility::Visible => String::from_str("visible"),
        };
        AccessibilityNode {
            id: String::from_str("overview"),
            role: SemanticRole::Group,
            label: String::from_str("Workspace overview"),
            value: Some(value),
            state: AccessibilityState::default(),
            children,
        }
    }
}

/// Enter on a visible overview acts on exactly what has focus: a focused
/// window card is activated, by its own window id, and a focused workspace
/// card is switched to; focus and visibility stay as they were.
pub proof fn lemma_enter_acts_on_focus(workspaces: Seq<WorkspaceSnapshot>, focus: OverviewFocus)
    ensures
        key_transition(workspaces, OverviewVisibility::Visible, focus, OverviewKey::Enter).0
            == OverviewVisibility::Visible,
        key_transition(workspaces, OverviewVisibility::Visible, focus, OverviewKey::Enter).1 == focus,
        focus matches OverviewFocus::Window { window, .. } ==> key_transition(
            workspaces,
            OverviewVisibility::Visible,
            focus,
            OverviewKey::Enter,
        ).2 == OverviewOutcome::Action(WorkspaceAction::ActivateWindow { window }),
        focus matches OverviewFocus::Workspace(workspace) ==> key_transition(
            workspaces,
            OverviewVisibility::Visible,
            focus,
            OverviewKey::Enter,
        ).2 == OverviewOutcome::Action(WorkspaceAction::SwitchWorkspace { workspace }),
{
}

} // verus!
