//! System overlay and layer-shell popup policy.
//!
//! The shell owns the protocol-facing layer-shell lifecycle. This module holds
//! the rules that lifecycle applies: which layer a role lives in, which input
//! and work-area policy a role may ask for, and which overlay owns the keyboard
//! as overlays open and close. Geometry and rendering live with the native host.

use vstd::prelude::*;

verus! {

/// Stable identifier for a shell-owned overlay surface.
#[derive(Debug, Clone, Copy, PartialEq, Eq, Structural, PartialOrd, Ord, Hash)]
pub struct OverlayId(pub u64);

/// Stable identifier for an output supplied by the compositor.
#[derive(Debug, Clone, PartialEq, Eq, PartialOrd, Ord, Hash)]
pub struct OutputId(String);

impl OutputId {
    /// Construct an output identifier. Empty identifiers are rejected when an
    /// output contract is registered.
    pub fn new(id: String) -> (output: Self)
        ensures
            output.name() == id@,
    {
        OutputId(id)
    }

    /// The compositor-owned output name.
    pub closed spec fn name(&self) -> Seq<char> {
        self.0@
    }

    /// Return the compositor-owned output name.
    pub fn as_str(&self) -> (name: &str)
        ensures
            name@ == self.name(),
    {
        self.0.as_str()
    }
}

/// Semantic system-surface role. The mapping to a layer-shell layer is kept
/// in this shell-owned contract instead of leaking into applications.
#[derive(Debug, Clone, Copy, PartialEq, Eq, Structural)]
pub enum OverlayRole {
    /// A persistent panel which may reserve output work area.
    Panel,
    /// A transient, pointer-transparent on-screen display.
    Osd,
    /// A transient keyboard-interactive menu.
    Menu,
    /// A transient keyboard-interactive contextual popover.
    Popover,
    /// A modal surface with an input-capturing scrim.
    Modal,
}

/// Layer selection requested from a native layer-shell adapter, ordered
/// bottom to top as the compositor stacks them.
#[derive(Debug, Clone, Copy, PartialEq, Eq, Structural, PartialOrd, Ord)]
pub enum LayerShellLayer {
    /// The desktop background: wallpaper, below every application window.
    Background,
    /// Chrome that sits on the desktop but still beneath application windows.
    Bottom,
    /// Panels are placed above regular application surfaces.
    Top,
    /// Transient system UI is placed in the overlay layer.
    Overlay,
}

impl OverlayRole {
    /// The only layer-shell layer allowed for a role.
    pub open spec fn layer_of(self) -> LayerShellLayer {
        match self {
            OverlayRole::Panel => LayerShellLayer::Top,
            _ => LayerShellLayer::Overlay,
        }
    }

    /// Resolve the only layer-shell layer allowed for this role.
    pub fn layer(self) -> (layer: LayerShellLayer)
        ensures
            layer == self.layer_of(),
    {
        match self {
            OverlayRole::Panel => LayerShellLayer::Top,
            OverlayRole::Osd | OverlayRole::Menu | OverlayRole::Popover | OverlayRole::Modal => {
                LayerShellLayer::Overlay
            },
        }
    }

    /// Whether a surface of this role draws an input-capturing scrim.
    pub fn has_scrim(self) -> (scrim: bool)
        ensures
            scrim == (self == OverlayRole::Modal),
    {
        match self {
            OverlayRole::Modal => true,
            _ => false,
        }
    }
}

/// Edge or centre anchor used for compositor-independent placement.
#[derive(Debug, Clone, Copy, PartialEq, Eq, Structural)]
pub enum Anchor {
    /// Top-left output corner.
    TopLeft,
    /// Top output edge, horizontally centred.
    Top,
    /// Top-right output corner.
    TopRight,
    /// Right output edge, vertically centred.
    Right,
    /// Bottom-right output corner.
    BottomRight,
    /// Bottom output edge, horizontally centred.
    Bottom,
    /// Bottom-left output corner.
    BottomLeft,
    /// Left output edge, vertically centred.
    Left,
    /// Output centre.
    Center,
}

/// Work-area reservation requested by a layer surface.
#[derive(Debug, Clone, Copy, PartialEq, Eq, Structural)]
pub enum ExclusiveZone {
    /// Do not reserve work area.
    NoReservation,
    /// Ask the compositor to derive a reservation from the surface size.
    Auto,
    /// Reserve exactly this many logical pixels.
    Fixed(u32),
}

/// Input ownership requested from the native surface.
#[derive(Debug, Clone, Copy, PartialEq, Eq, Structural)]
pub enum InputRegion {
    /// The surface must not intercept pointer or keyboard input.
    PassThrough,
    /// The surface participates in input and keyboard focus lifecycle.
    Interactive,
}

/// Errors returned before a native host sees an invalid surface contract.
#[derive(Debug, Clone, PartialEq, Eq)]
pub enum OverlayError {
    /// Output input facts were invalid.
    InvalidOutput(&'static str),
    /// Request geometry was invalid.
    InvalidGeometry,
    /// No registered compositor output matched the request.
    UnknownOutput(OutputId),
    /// The request combined a role with an unsafe protocol policy.
    InvalidRoleContract(&'static str),
    /// An overlay id was opened more than once.
    DuplicateOverlay(OverlayId),
}

/// A role's safe default protocol contract:
/// `(exclusive zone, input region, dismissible)`.
pub open spec fn role_defaults_of(role: OverlayRole) -> (ExclusiveZone, InputRegion, bool) {
    match role {
        OverlayRole::Panel => (ExclusiveZone::Auto, InputRegion::Interactive, false),
        OverlayRole::Osd => (ExclusiveZone::NoReservation, InputRegion::PassThrough, true),
        _ => (ExclusiveZone::NoReservation, InputRegion::Interactive, true),
    }
}

/// The protocol contract a new request for `role` starts from.
pub fn role_defaults(role: OverlayRole) -> (defaults: (ExclusiveZone, InputRegion, bool))
    ensures
        defaults == role_defaults_of(role),
{
    match role {
        OverlayRole::Panel => (ExclusiveZone::Auto, InputRegion::Interactive, false),
        OverlayRole::Osd => (ExclusiveZone::NoReservation, InputRegion::PassThrough, true),
        OverlayRole::Menu | OverlayRole::Popover => (
            ExclusiveZone::NoReservation,
            InputRegion::Interactive,
            true,
        ),
        OverlayRole::Modal => (ExclusiveZone::NoReservation, InputRegion::Interactive, true),
    }
}

/// The reason a role may not use a protocol policy, or `None` when it may.
pub open spec fn role_violation(
    role: OverlayRole,
    zone: ExclusiveZone,
    input: InputRegion,
) -> Option<Seq<char>> {
    match role {
        OverlayRole::Panel => if zone == ExclusiveZone::NoReservation {
            Some("a panel must reserve an exclusive zone"@)
        } else {
            None
        },
        OverlayRole::Osd => if input != InputRegion::PassThrough {
            Some("an OSD must be pointer and keyboard transparent"@)
        } else if zone != ExclusiveZone::NoReservation {
            Some("an OSD must not reserve output work area"@)
        } else {
            None
        },
        _ => if input != InputRegion::Interactive {
            Some("transient interactive surfaces require input ownership"@)
        } else if zone != ExclusiveZone::NoReservation {
            Some("transient surfaces must not reserve output work area"@)
        } else {
            None
        },
    }
}

/// Refuse a role combined with an unsafe input or work-area policy.
pub fn check_role_contract(role: OverlayRole, zone: ExclusiveZone, input: InputRegion) -> (result:
    Result<(), OverlayError>)
    ensures
        match role_violation(role, zone, input) {
            None => result is Ok,
            Some(reason) => result matches Err(OverlayError::InvalidRoleContract(r)) && r@ == reason,
        },
{
    match role {
        OverlayRole::Panel => {
            if zone == ExclusiveZone::NoReservation {
                return Err(OverlayError::InvalidRoleContract("a panel must reserve an exclusive zone"));
            }
        },
        OverlayRole::Osd => {
            if input != InputRegion::PassThrough {
                return Err(
                    OverlayError::InvalidRoleContract(
                        "an OSD must be pointer and keyboard transparent",
                    ),
                );
            }
            if zone != ExclusiveZone::NoReservation {
                return Err(
                    OverlayError::InvalidRoleContract("an OSD must not reserve output work area"),
                );
            }
        },
        OverlayRole::Menu | OverlayRole::Popover | OverlayRole::Modal => {
            if input != InputRegion::Interactive {
                return Err(
                    OverlayError::InvalidRoleContract(
                        "transient interactive surfaces require input ownership",
                    ),
                );
            }
            if zone != ExclusiveZone::NoReservation {
                return Err(
                    OverlayError::InvalidRoleContract(
                        "transient surfaces must not reserve output work area",
                    ),
                );
            }
        },
    }
    Ok(())
}

/// The protocol facts the stack keeps about one open overlay.
#[derive(Debug, Clone, Copy, PartialEq, Eq, Structural)]
pub struct OverlayEntry {
    pub id: OverlayId,
    pub role: OverlayRole,
    pub exclusive_zone: ExclusiveZone,
    pub input_region: InputRegion,
    /// Whether Escape and the semantic dismiss control may close the overlay.
    pub dismissible: bool,
}

/// The id of the top-most interactive entry, which owns the keyboard.
pub open spec fn keyboard_owner(entries: Seq<OverlayEntry>) -> Option<OverlayId>
    decreases entries.len(),
{
    if entries.len() == 0 {
        None
    } else if entries.last().input_region == InputRegion::Interactive {
        Some(entries.last().id)
    } else {
        keyboard_owner(entries.drop_last())
    }
}

/// Whether an entry with `id` is open.
pub open spec fn is_open(entries: Seq<OverlayEntry>, id: OverlayId) -> bool {
    exists|i: int| 0 <= i < entries.len() && #[trigger] entries[i].id == id
}

/// Whether no two entries share an id.
pub open spec fn distinct_ids(entries: Seq<OverlayEntry>) -> bool {
    forall|i: int, j: int|
        0 <= i < entries.len() && 0 <= j < entries.len() && i != j ==> #[trigger] entries[i].id
            != #[trigger] entries[j].id
}

/// How a key the shell handles itself was resolved.
#[derive(Debug, Clone, Copy, PartialEq, Eq, Structural)]
pub enum OverlayEscape {
    /// No interactive overlay owned the key, or it may not be dismissed.
    Ignored,
    /// The focused overlay was closed.
    Dismissed(OverlayId),
}

/// Retained overlay stack in bottom-to-top presentation order, with the
/// keyboard always on the top-most interactive overlay.
#[derive(Debug)]
pub struct OverlayStack {
    entries: Vec<OverlayEntry>,
    focused: Option<OverlayId>,
    outputs: Vec<String>,
}

/// Whether `name` is among the registered output names.
pub open spec fn is_registered(outputs: Seq<Seq<char>>, name: Seq<char>) -> bool {
    outputs.contains(name)
}

impl OverlayStack {
    #[verifier::type_invariant]
    spec fn well_formed(self) -> bool {
        &&& distinct_ids(self.entries@)
        &&& self.focused == keyboard_owner(self.entries@)
    }

    /// The open overlays, bottom to top.
    pub closed spec fn entries_spec(&self) -> Seq<OverlayEntry> {
        self.entries@
    }

    /// The names of the registered compositor outputs.
    pub closed spec fn outputs_spec(&self) -> Seq<Seq<char>> {
        self.outputs@.map_values(|name: String| name@)
    }

    /// An empty stack with no registered output.
    pub fn new() -> (stack: Self)
        ensures
            stack.entries_spec() == Seq::<OverlayEntry>::empty(),
            forall|name: Seq<char>| !is_registered(#[trigger] stack.outputs_spec(), name),
    {
        let stack = OverlayStack { entries: Vec::new(), focused: None, outputs: Vec::new() };
        proof {
            assert(stack.outputs_spec() =~= Seq::<Seq<char>>::empty());
        }
        stack
    }

    /// Register a compositor output overlays may be opened on; an empty name
    /// is refused.
    pub fn register_output(&mut self, output: OutputId) -> (result: Result<(), OverlayError>)
        ensures
            final(self).entries_spec() == old(self).entries_spec(),
            output.name().len() == 0 ==> result == Err::<(), OverlayError>(
                OverlayError::InvalidOutput("output id must not be empty"),
            ) && final(self).outputs_spec() == old(self).outputs_spec(),
            output.name().len() > 0 ==> result is Ok && final(self).outputs_spec() == old(
                self,
            ).outputs_spec().push(output.name()),
    {
        let name = output.0;
        if name.as_str().unicode_len() == 0 {
            return Err(OverlayError::InvalidOutput("output id must not be empty"));
        }
        proof {
            use_type_invariant(&*self);
        }
        let ghost before = self.outputs@;
        let mut outputs = self.copy_outputs();
        outputs.push(name);
        self.outputs = outputs;
        proof {
            assert(self.outputs@.map_values(|name: String| name@) =~= before.map_values(
                |name: String| name@,
            ).push(output.name()));
        }
        Ok(())
    }

    fn copy_outputs(&self) -> (outputs: Vec<String>)
        ensures
            outputs@ == self.outputs@,
    {
        let outputs = self.outputs.clone();
        proof {
            assert(outputs@ =~= self.outputs@);
        }
        outputs
    }

    fn knows_output(&self, output: &OutputId) -> (known: bool)
        ensures
            known == is_registered(self.outputs_spec(), output.name()),
    {
        let mut i: usize = 0;
        while i < self.outputs.len()
            invariant
                i <= self.outputs@.len(),
                forall|j: int| 0 <= j < i ==> #[trigger] self.outputs@[j]@ != output.name(),
            decreases self.outputs@.len() - i,
        {
            if crate::text::str_eq(self.outputs[i].as_str(), output.as_str()) {
                proof {
                    assert(self.outputs_spec()[i as int] == output.name());
                }
                return true;
            }
            i = i + 1;
        }
        proof {
            assert forall|j: int| 0 <= j < self.outputs_spec().len() implies #[trigger] self.outputs_spec()[j]
                != output.name() by {
                assert(self.outputs_spec()[j] == self.outputs@[j]@);
            }
        }
        false
    }

    /// The open overlays, bottom to top; no two share an id.
    pub fn entries(&self) -> (entries: &Vec<OverlayEntry>)
        ensures
            entries@ == self.entries_spec(),
            distinct_ids(entries@),
    {
        proof {
            use_type_invariant(self);
        }
        &self.entries
    }

    /// Return the active keyboard overlay, if any.
    pub fn focused_overlay(&self) -> (focused: Option<OverlayId>)
        ensures
            focused == keyboard_owner(self.entries_spec()),
    {
        proof {
            use_type_invariant(self);
        }
        self.focused
    }

    fn position(&self, id: OverlayId) -> (index: Option<usize>)
        ensures
            match index {
                Some(i) => i < self.entries@.len() && self.entries@[i as int].id == id,
                None => !is_open(self.entries@, id),
            },
    {
        let mut i: usize = 0;
        while i < self.entries.len()
            invariant
                i <= self.entries@.len(),
                forall|j: int| 0 <= j < i ==> self.entries@[j].id != id,
            decreases self.entries@.len() - i,
        {
            if self.entries[i].id == id {
                return Some(i);
            }
            i = i + 1;
        }
        None
    }

    /// Whether an overlay with this id is open.
    pub fn contains(&self, id: OverlayId) -> (open: bool)
        ensures
            open == is_open(self.entries_spec(), id),
    {
        self.position(id).is_some()
    }

    fn refocus(entries: &Vec<OverlayEntry>) -> (focused: Option<OverlayId>)
        ensures
            focused == keyboard_owner(entries@),
    {
        let mut i = entries.len();
        proof {
            assert(entries@.take(i as int) =~= entries@);
        }
        while i > 0
            invariant
                i <= entries@.len(),
                keyboard_owner(entries@) == keyboard_owner(entries@.take(i as int)),
            decreases i,
        {
            proof {
                assert(entries@.take(i as int).drop_last() =~= entries@.take(i - 1));
            }
            if entries[i - 1].input_region == InputRegion::Interactive {
                return Some(entries[i - 1].id);
            }
            i = i - 1;
        }
        None
    }

    /// Open an overlay on `output`, on top of the stack, after the shell has
    /// checked its geometry: a duplicate id, a role with an unsafe policy, and
    /// an output never registered are refused, in that order, and leave the
    /// stack unchanged.
    pub fn open(&mut self, entry: OverlayEntry, output: &OutputId) -> (result: Result<(), OverlayError>)
        ensures
            final(self).outputs_spec() == old(self).outputs_spec(),
            is_open(old(self).entries_spec(), entry.id) ==> result == Err::<(), OverlayError>(
                OverlayError::DuplicateOverlay(entry.id),
            ) && final(self).entries_spec() == old(self).entries_spec(),
            !is_open(old(self).entries_spec(), entry.id) ==> match role_violation(
                entry.role,
                entry.exclusive_zone,
                entry.input_region,
            ) {
                Some(reason) => result matches Err(OverlayError::InvalidRoleContract(r)) && r@
                    == reason && final(self).entries_spec() == old(self).entries_spec(),
                None => if is_registered(old(self).outputs_spec(), output.name()) {
                    result is Ok && final(self).entries_spec() == old(self).entries_spec().push(entry)
                } else {
                    result matches Err(OverlayError::UnknownOutput(unknown)) && unknown.name()
                        == output.name() && final(self).entries_spec() == old(self).entries_spec()
                },
            },
    {
        proof {
            use_type_invariant(&*self);
        }
        if self.contains(entry.id) {
            return Err(OverlayError::DuplicateOverlay(entry.id));
        }
        check_role_contract(entry.role, entry.exclusive_zone, entry.input_region)?;
        if !self.knows_output(output) {
            return Err(OverlayError::UnknownOutput(OutputId::new(String::from_str(output.as_str()))));
        }
        let mut entries = self.entries.clone();
        proof {
            assert(entries@ =~= self.entries@);
        }
        let ghost before = entries@;
        entries.push(entry);
        proof {
            assert(entries@.drop_last() =~= before);
            assert forall|i: int, j: int|
                0 <= i < entries@.len() && 0 <= j < entries@.len() && i != j implies #[trigger] entries@[i].id
                != #[trigger] entries@[j].id by {
                if i < before.len() && j < before.len() {
                    assert(entries@[i] == before[i] && entries@[j] == before[j]);
                } else if i < before.len() {
                    assert(entries@[i] == before[i]);
                } else {
                    assert(entries@[j] == before[j]);
                }
            }
        }
        let focused = Self::refocus(&entries);
        let outputs = self.copy_outputs();
        *self = OverlayStack { entries, focused, outputs };
        Ok(())
    }

    /// Dismiss an overlay and restore keyboard focus to the next interactive
    /// surface below it. Returns whether an overlay with `id` was open; when
    /// none was, the stack is unchanged.
    pub fn dismiss(&mut self, id: OverlayId) -> (dismissed: bool)
        ensures
            dismissed == is_open(old(self).entries_spec(), id),
            !dismissed ==> final(self).entries_spec() == old(self).entries_spec(),
            dismissed ==> exists|i: int|
                0 <= i < old(self).entries_spec().len() && #[trigger] old(self).entries_spec()[i].id
                    == id && final(self).entries_spec() == old(self).entries_spec().remove(i),
            !is_open(final(self).entries_spec(), id),
    {
        proof {
            use_type_invariant(&*self);
        }
        let index = match self.position(id) {
            Some(index) => index,
            None => return false,
        };
        let mut entries = self.entries.clone();
        proof {
            assert(entries@ =~= self.entries@);
        }
        let ghost before = entries@;
        entries.remove(index);
        proof {
            assert(entries@ =~= before.remove(index as int));
            assert forall|i: int, j: int|
                0 <= i < entries@.len() && 0 <= j < entries@.len() && i != j implies #[trigger] entries@[i].id
                != #[trigger] entries@[j].id by {
                let bi = if i < index { i } else { i + 1 };
                let bj = if j < index { j } else { j + 1 };
                assert(entries@[i] == before[bi] && entries@[j] == before[bj]);
            }
            assert forall|i: int| 0 <= i < entries@.len() implies #[trigger] entries@[i].id != id by {
                let bi = if i < index { i } else { i + 1 };
                assert(entries@[i] == before[bi]);
                assert(before[index as int].id == id);
            }
        }
        let focused = Self::refocus(&entries);
        let outputs = self.copy_outputs();
        *self = OverlayStack { entries, focused, outputs };
        true
    }

    /// Escape is a shell policy: it closes the focused overlay only when that
    /// overlay is explicitly dismissible, and is otherwise ignored.
    pub fn handle_escape(&mut self) -> (outcome: OverlayEscape)
        ensures
            match keyboard_owner(old(self).entries_spec()) {
                None => outcome == OverlayEscape::Ignored && final(self).entries_spec() == old(
                    self,
                ).entries_spec(),
                Some(id) => exists|i: int|
                    0 <= i < old(self).entries_spec().len() && #[trigger] old(
                        self,
                    ).entries_spec()[i].id == id && if old(self).entries_spec()[i].dismissible {
                        outcome == OverlayEscape::Dismissed(id) && final(self).entries_spec() == old(
                            self,
                        ).entries_spec().remove(i)
                    } else {
                        outcome == OverlayEscape::Ignored && final(self).entries_spec() == old(
                            self,
                        ).entries_spec()
                    },
            },
    {
        proof {
            use_type_invariant(&*self);
            lemma_keyboard_owner_is_open(self.entries@);
        }
        let id = match self.focused {
            Some(id) => id,
            None => return OverlayEscape::Ignored,
        };
        let index = match self.position(id) {
            Some(index) => index,
            None => return OverlayEscape::Ignored,
        };
        if self.entries[index].dismissible {
            let ghost before = self.entries@;
            self.dismiss(id);
            proof {
                lemma_unique_position(before, id, index as int);
            }
            OverlayEscape::Dismissed(id)
        } else {
            OverlayEscape::Ignored
        }
    }
}

/// The keyboard owner is an open, interactive overlay.
pub proof fn lemma_keyboard_owner_is_open(entries: Seq<OverlayEntry>)
    ensures
        keyboard_owner(entries) matches Some(id) ==> exists|i: int|
            0 <= i < entries.len() && #[trigger] entries[i].id == id && entries[i].input_region
                == InputRegion::Interactive,
    decreases entries.len(),
{
    if entries.len() > 0 {
        lemma_keyboard_owner_is_open(entries.drop_last());
        if entries.last().input_region != InputRegion::Interactive {
            if let Some(id) = keyboard_owner(entries.drop_last()) {
                let i = choose|i: int|
                    0 <= i < entries.drop_last().len() && #[trigger] entries.drop_last()[i].id == id
                        && entries.drop_last()[i].input_region == InputRegion::Interactive;
                assert(entries[i] == entries.drop_last()[i]);
            }
        }
    }
}

/// In a stack without duplicate ids, an id names one position.
proof fn lemma_unique_position(entries: Seq<OverlayEntry>, id: OverlayId, index: int)
    requires
        distinct_ids(entries),
        0 <= index < entries.len(),
        entries[index].id == id,
    ensures
        forall|i: int| 0 <= i < entries.len() && #[trigger] entries[i].id == id ==> i == index,
{
}

} // verus!
