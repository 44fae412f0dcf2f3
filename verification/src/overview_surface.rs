//! Shell-side pieces of the native overview surface.
//!
//! The overview model in [`crate::overview`] owns interaction policy. The
//! native surface turns a compositor snapshot and optional window thumbnails
//! into an output-sized frame; what it accepts from a capture adapter, and the
//! deterministic fixtures it is exercised against, live here.

use vstd::prelude::*;
use crate::accessibility::{leaf_is, node_is, plain_state, AccessibilityNode, AccessibilityState, SemanticRole};
use crate::overview::{
    same_snapshot_set, OverviewFocus, OverviewWindowId, OverviewWindowSnapshot, WorkspaceAction, WorkspaceBridge,
    WorkspaceBridgeError, WorkspaceId, WorkspaceSnapshot, WorkspaceSnapshotSet,
};
use crate::text::{decimal, push_decimal};

verus! {

/// Largest thumbnail side a capture adapter may hand over.
pub const MAX_THUMBNAIL_SIDE: u32 = 4096;

/// Errors at the native overview surface boundary.
#[derive(Debug, Clone, PartialEq, Eq)]
pub enum OverviewSurfaceError {
    /// Snapshot or output facts are malformed.
    InvalidOutput,
    /// Thumbnail dimensions or byte count are unsafe.
    InvalidThumbnail,
    /// The compositor bridge failed.
    Bridge(String),
}

impl OverviewSurfaceError {
    /// The diagnostic text.
    pub fn message(&self) -> (message: String)
        ensures
            message@ == match self {
                OverviewSurfaceError::InvalidOutput => "invalid overview output contract"@,
                OverviewSurfaceError::InvalidThumbnail => "invalid overview thumbnail"@,
                OverviewSurfaceError::Bridge(reason) => "overview compositor bridge failed: "@ + reason@,
            },
    {
        match self {
            OverviewSurfaceError::InvalidOutput => String::from_str("invalid overview output contract"),
            OverviewSurfaceError::InvalidThumbnail => String::from_str("invalid overview thumbnail"),
            OverviewSurfaceError::Bridge(reason) => {
                let mut message = String::from_str("overview compositor bridge failed: ");
                message.append(reason.as_str());
                message
            },
        }
    }
}

/// A bridge failure as the overview surface reports it.
pub fn bridge_error(error: &WorkspaceBridgeError) -> (converted: OverviewSurfaceError)
    ensures
        converted matches OverviewSurfaceError::Bridge(reason) && reason@ == error.message(),
{
    OverviewSurfaceError::Bridge(String::from_str(error.as_str()))
}

/// A bounded RGBA thumbnail supplied by a compositor capture adapter.
#[derive(Debug, Clone, PartialEq, Eq)]
pub struct WindowThumbnail {
    /// Width in logical pixels represented by the buffer.
    pub width: u32,
    /// Height in logical pixels represented by the buffer.
    pub height: u32,
    /// Premultiplied RGBA8 bytes, row-major.
    pub rgba: Vec<u8>,
}

/// Whether a thumbnail's extent and bytes are acceptable: both sides in
/// `1..=4096` and exactly four bytes per pixel.
pub open spec fn valid_thumbnail(width: u32, height: u32, bytes: nat) -> bool {
    &&& 1 <= width <= MAX_THUMBNAIL_SIDE
    &&& 1 <= height <= MAX_THUMBNAIL_SIDE
    &&& bytes == width * height * 4
}

impl WindowThumbnail {
    /// Construct a thumbnail, rejecting malformed or excessively large data.
    pub fn new(width: u32, height: u32, rgba: Vec<u8>) -> (result: Result<Self, OverviewSurfaceError>)
        ensures
            valid_thumbnail(width, height, rgba@.len()) ==> (result matches Ok(t) && t.width == width
                && t.height == height && t.rgba@ == rgba@),
            !valid_thumbnail(width, height, rgba@.len()) ==> result == Err::<
                WindowThumbnail,
                OverviewSurfaceError,
            >(OverviewSurfaceError::InvalidThumbnail),
    {
        if width == 0 || height == 0 || width > MAX_THUMBNAIL_SIDE || height > MAX_THUMBNAIL_SIDE {
            return Err(OverviewSurfaceError::InvalidThumbnail);
        }
        proof {
            assert(width * height <= 4096 * 4096) by (nonlinear_arith)
                requires
                    width <= 4096,
                    height <= 4096,
            ;
        }
        let expected = (width as usize) * (height as usize) * 4;
        if rgba.len() != expected {
            return Err(OverviewSurfaceError::InvalidThumbnail);
        }
        Ok(WindowThumbnail { width, height, rgba })
    }
}

/// Compositor-owned source of window thumbnails.
pub trait ThumbnailProvider {
    /// Return a current thumbnail for a window, if capture is available.
    fn thumbnail(&mut self, window: OverviewWindowId) -> Result<
        Option<WindowThumbnail>,
        OverviewSurfaceError,
    >;
}

/// Index of the first thumbnail recorded for `window`, or `-1`.
pub open spec fn thumbnail_index(thumbnails: Seq<(OverviewWindowId, WindowThumbnail)>, window: OverviewWindowId) -> int
    decreases thumbnails.len(),
{
    if thumbnails.len() == 0 {
        -1
    } else {
        let earlier = thumbnail_index(thumbnails.drop_last(), window);
        if earlier >= 0 {
            earlier
        } else if thumbnails.last().0 == window {
            thumbnails.len() - 1
        } else {
            -1
        }
    }
}

/// Small deterministic thumbnail provider for shell integration tests.
#[derive(Debug)]
pub struct MemoryThumbnailProvider(pub Vec<(OverviewWindowId, WindowThumbnail)>);

impl Default for MemoryThumbnailProvider {
    fn default() -> (provider: Self)
        ensures
            provider.0@.len() == 0,
    {
        MemoryThumbnailProvider(Vec::new())
    }
}

impl ThumbnailProvider for MemoryThumbnailProvider {
    /// The thumbnail recorded for the window, if any.
    fn thumbnail(&mut self, window: OverviewWindowId) -> (result: Result<
        Option<WindowThumbnail>,
        OverviewSurfaceError,
    >)
        ensures
            final(self).0@ == old(self).0@,
            thumbnail_index(old(self).0@, window) < 0 ==> result == Ok::<
                Option<WindowThumbnail>,
                OverviewSurfaceError,
            >(None),
            thumbnail_index(old(self).0@, window) >= 0 ==> (result matches Ok(Some(t)) && ({
                let found = old(self).0@[thumbnail_index(old(self).0@, window)].1;
                t.width == found.width && t.height == found.height && t.rgba@ == found.rgba@
            })),
    {
        let mut i: usize = 0;
        while i < self.0.len()
            invariant
                i <= self.0@.len(),
                thumbnail_index(self.0@.take(i as int), window) == -1,
            decreases self.0@.len() - i,
        {
            proof {
                assert(self.0@.take(i + 1).drop_last() =~= self.0@.take(i as int));
            }
            if self.0[i].0 == window {
                let found = &self.0[i].1;
                let rgba = found.rgba.clone();
                proof {
                    assert(rgba@ =~= found.rgba@);
                    lemma_thumbnail_index_prefix(self.0@, window, i + 1);
                }
                return Ok(Some(WindowThumbnail { width: found.width, height: found.height, rgba }));
            }
            i = i + 1;
        }
        proof {
            assert(self.0@.take(i as int) =~= self.0@);
        }
        Ok(None)
    }
}

/// Once a prefix holds the window, the whole list finds it at the same index.
proof fn lemma_thumbnail_index_prefix(
    thumbnails: Seq<(OverviewWindowId, WindowThumbnail)>,
    window: OverviewWindowId,
    n: int,
)
    requires
        0 <= n <= thumbnails.len(),
        thumbnail_index(thumbnails.take(n), window) >= 0,
    ensures
        thumbnail_index(thumbnails, window) == thumbnail_index(thumbnails.take(n), window),
    decreases thumbnails.len() - n,
{
    if n < thumbnails.len() {
        assert(thumbnails.take(n + 1).drop_last() =~= thumbnails.take(n));
        lemma_thumbnail_index_prefix(thumbnails, window, n + 1);
    } else {
        assert(thumbnails.take(n) =~= thumbnails);
    }
}

/// Bridge fixture that records typed compositor intents.
#[derive(Debug, Clone)]
pub struct MemoryWorkspaceBridge {
    /// Current authoritative snapshot.
    pub state: WorkspaceSnapshotSet,
    /// Actions sent by the native surface.
    pub actions: Vec<WorkspaceAction>,
}

impl WorkspaceBridge for MemoryWorkspaceBridge {
    open spec fn requested(&self) -> Seq<WorkspaceAction> {
        self.actions@
    }

    open spec fn dispatched(&self) -> Seq<WorkspaceAction> {
        self.actions@
    }

    /// The fixture accepts every request.
    open spec fn answers(&self) -> Seq<Result<(), WorkspaceBridgeError>> {
        Seq::new(self.actions@.len(), |i: int| Ok(()))
    }

    /// A copy of the current snapshot; the fixture always has one.
    fn snapshot(&self) -> (result: Result<WorkspaceSnapshotSet, WorkspaceBridgeError>)
        ensures
            result matches Ok(snapshot) && same_snapshot_set(snapshot, self.state),
    {
        Ok(self.state.clone())
    }

    /// Record the intent; the fixture never refuses one.
    fn dispatch(&mut self, action: WorkspaceAction) -> (result: Result<(), WorkspaceBridgeError>)
        ensures
            result is Ok,
            final(self).actions@ == old(self).actions@.push(action),
    {
        let ghost before = self.answers();
        self.actions.push(action);
        proof {
            assert(self.answers() =~= before.push(Ok(())));
        }
        Ok(())
    }
}

/// The windows the surface lists under workspace `id`: those of every
/// workspace carrying that id, in snapshot order.
pub open spec fn windows_under(workspaces: Seq<WorkspaceSnapshot>, id: WorkspaceId) -> Seq<OverviewWindowSnapshot>
    decreases workspaces.len(),
{
    if workspaces.len() == 0 {
        Seq::empty()
    } else {
        let earlier = windows_under(workspaces.drop_last(), id);
        if workspaces.last().id == id {
            earlier + workspaces.last().windows@
        } else {
            earlier
        }
    }
}

/// The node of one window card under workspace `id`: named by title and
/// application, focused and selected where the overview's focus is.
pub open spec fn card_node_is(
    node: AccessibilityNode,
    id: WorkspaceId,
    window: OverviewWindowSnapshot,
    focus: OverviewFocus,
) -> bool {
    let focused = focus == (OverviewFocus::Window { workspace: id, window: window.id });
    leaf_is(
        node,
        "overview.window."@ + decimal(window.id.0 as nat),
        SemanticRole::Button,
        window.title@ + " - "@ + window.application@,
        None,
        AccessibilityState { focused, selected: focused, disabled: false, editable: false },
    )
}

/// The node of one workspace column, with its window cards.
pub open spec fn column_node_is(
    node: AccessibilityNode,
    workspaces: Seq<WorkspaceSnapshot>,
    workspace: WorkspaceSnapshot,
    focus: OverviewFocus,
) -> bool {
    let selected = focus == OverviewFocus::Workspace(workspace.id);
    let windows = windows_under(workspaces, workspace.id);
    &&& node_is(
        node,
        "overview.workspace."@ + decimal(workspace.id.0 as nat),
        SemanticRole::Group,
        workspace.label@,
        None,
        AccessibilityState { focused: selected, selected, disabled: false, editable: false },
    )
    &&& node.children@.len() == windows.len()
    &&& forall|k: int|
        0 <= k < windows.len() ==> card_node_is(#[trigger] node.children@[k], workspace.id, windows[k], focus)
}

/// The number the surface's root reports for a focus.
pub open spec fn focus_number(focus: OverviewFocus) -> nat {
    match focus {
        OverviewFocus::Workspace(id) => id.0 as nat,
        OverviewFocus::Window { window, .. } => window.0 as nat,
    }
}

fn card_nodes(workspaces: &Vec<WorkspaceSnapshot>, id: WorkspaceId, focus: OverviewFocus) -> (nodes: Vec<
    AccessibilityNode,
>)
    ensures
        nodes@.len() == windows_under(workspaces@, id).len(),
        forall|k: int|
            0 <= k < nodes@.len() ==> card_node_is(
                #[trigger] nodes@[k],
                id,
                windows_under(workspaces@, id)[k],
                focus,
            ),
{
    let mut nodes: Vec<AccessibilityNode> = Vec::new();
    let mut j: usize = 0;
    while j < workspaces.len()
        invariant
            j <= workspaces@.len(),
            nodes@.len() == windows_under(workspaces@.take(j as int), id).len(),
            forall|k: int|
                0 <= k < nodes@.len() ==> card_node_is(
                    #[trigger] nodes@[k],
                    id,
                    windows_under(workspaces@.take(j as int), id)[k],
                    focus,
                ),
        decreases workspaces@.len() - j,
    {
        let ghost before = windows_under(workspaces@.take(j as int), id);
        proof {
            assert(workspaces@.take(j + 1).drop_last() =~= workspaces@.take(j as int));
        }
        let workspace = &workspaces[j];
        if workspace.id == id {
            let mut k: usize = 0;
            while k < workspace.windows.len()
                invariant
                    k <= workspace.windows@.len(),
                    workspace.id == id,
                    nodes@.len() == before.len() + k,
                    forall|a: int|
                        0 <= a < nodes@.len() ==> card_node_is(
                            #[trigger] nodes@[a],
                            id,
                            (before + workspace.windows@)[a],
                            focus,
                        ),
                decreases workspace.windows@.len() - k,
            {
                let window = &workspace.windows[k];
                let mut node_id = String::from_str("overview.window.");
                push_decimal(&mut node_id, window.id.0);
                let mut label = window.title.clone();
                label.append(" - ");
                label.append(window.application.as_str());
                let focused = match focus {
                    OverviewFocus::Window { workspace: w, window: f } => w == id && f == window.id,
                    OverviewFocus::Workspace(_) => false,
                };
                nodes.push(
                    AccessibilityNode {
                        id: node_id,
                        role: SemanticRole::Button,
                        label,
                        value: None,
                        state: AccessibilityState { focused, selected: focused, disabled: false, editable: false },
                        children: Vec::new(),
                    },
                );
                k = k + 1;
            }
        }
        j = j + 1;
    }
    proof {
        assert(workspaces@.take(j as int) =~= workspaces@);
    }
    nodes
}

/// The overview surface's semantic tree: one group per workspace column in
/// snapshot order, each holding the cards of the windows listed under its id.
pub fn accessibility_tree(snapshots: &WorkspaceSnapshotSet, focus: OverviewFocus) -> (tree: AccessibilityNode)
    ensures
        node_is(
            tree,
            "overview.surface"@,
            SemanticRole::Group,
            "Workspace overview ("@ + decimal(snapshots.workspaces@.len()) + ")"@,
            Some(decimal(focus_number(focus))),
            plain_state(),
        ),
        tree.children@.len() == snapshots.workspaces@.len(),
        forall|i: int|
            0 <= i < snapshots.workspaces@.len() ==> column_node_is(
                #[trigger] tree.children@[i],
                snapshots.workspaces@,
                snapshots.workspaces@[i],
                focus,
            ),
{
    let workspaces = &snapshots.workspaces;
    let mut children: Vec<AccessibilityNode> = Vec::new();
    let mut i: usize = 0;
    while i < workspaces.len()
        invariant
            i <= workspaces@.len(),
            children@.len() == i,
            forall|a: int|
                0 <= a < i ==> column_node_is(#[trigger] children@[a], workspaces@, workspaces@[a], focus),
        decreases workspaces@.len() - i,
    {
        let workspace = &workspaces[i];
        let cards = card_nodes(workspaces, workspace.id, focus);
        let mut id = String::from_str("overview.workspace.");
        push_decimal(&mut id, workspace.id.0 as u64);
        let selected = match focus {
            OverviewFocus::Workspace(w) => w == workspace.id,
            OverviewFocus::Window { .. } => false,
        };
        children.push(
            AccessibilityNode {
                id,
                role: SemanticRole::Group,
                label: workspace.label.clone(),
                value: None,
                state: AccessibilityState { focused: selected, selected, disabled: false, editable: false },
                children: cards,
            },
        );
        i = i + 1;
    }
    let mut label = String::from_str("Workspace overview (");
    push_decimal(&mut label, workspaces.len() as u64);
    label.append(")");
    let mut value = String::new();
    match focus {
        OverviewFocus::Workspace(id) => push_decimal(&mut value, id.0 as u64),
        OverviewFocus::Window { window, .. } => push_decimal(&mut value, window.0),
    }
    AccessibilityNode {
        id: String::from_str("overview.surface"),
        role: SemanticRole::Group,
        label,
        value: Some(value),
        state: AccessibilityState::default(),
        children,
    }
}

} // verus!
