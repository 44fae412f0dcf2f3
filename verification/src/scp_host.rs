//! The native layer-surface boundary every SOL Shell surface presents through.
//!
//! Each Shell surface is projected into a [`LayerPlacement`] plus a block of
//! RGBA pixels. A [`DesktopHost`] turns those into compositor surfaces; the
//! rules that decide whether a frame may be presented at all, and which
//! placement changes must be sent, live here so every host applies them alike.
//! A test drives a [`RecordingDesktopHost`]; the session drives the native host.

use vstd::prelude::*;
use crate::overlay::LayerShellLayer;
use crate::text::{decimal, push_decimal, push_signed_decimal, signed_decimal, str_eq};

verus! {

/// Which output edges a Shell surface is pinned to.
///
/// An axis with neither edge set is centered by the compositor, which is how
/// the Dock reaches the bottom center without the Shell computing a margin.
#[derive(Debug, Clone, Copy, PartialEq, Eq, Structural)]
pub struct LayerAnchor {
    pub top: bool,
    pub bottom: bool,
    pub left: bool,
    pub right: bool,
}

impl LayerAnchor {
    /// Pinned to all four edges: the surface fills its output.
    pub fn full() -> (anchor: Self)
        ensures
            anchor == (LayerAnchor { top: true, bottom: true, left: true, right: true }),
    {
        LayerAnchor { top: true, bottom: true, left: true, right: true }
    }

    /// Spanning the top edge, as the top bar does.
    pub fn top_bar() -> (anchor: Self)
        ensures
            anchor == (LayerAnchor { top: true, bottom: false, left: true, right: true }),
    {
        LayerAnchor { top: true, bottom: false, left: true, right: true }
    }

    /// Pinned to the bottom edge and centered horizontally, as the Dock does.
    pub fn bottom_center() -> (anchor: Self)
        ensures
            anchor == (LayerAnchor { top: false, bottom: true, left: false, right: false }),
    {
        LayerAnchor { top: false, bottom: true, left: false, right: false }
    }

    /// Pinned to no edge.
    pub fn unanchored() -> (anchor: Self)
        ensures
            !anchor.top && !anchor.bottom && !anchor.left && !anchor.right,
    {
        LayerAnchor { top: false, bottom: false, left: false, right: false }
    }
}

/// Logical margins between a surface and the edges it is anchored to.
#[derive(Debug, Clone, Copy, PartialEq, Eq, Structural)]
pub struct LayerMargin {
    pub top: i32,
    pub right: i32,
    pub bottom: i32,
    pub left: i32,
}

impl LayerMargin {
    /// No margin on any edge.
    pub fn zero() -> (margin: Self)
        ensures
            margin == (LayerMargin { top: 0, right: 0, bottom: 0, left: 0 }),
    {
        LayerMargin { top: 0, right: 0, bottom: 0, left: 0 }
    }

    /// A margin on the bottom edge only.
    pub fn bottom(bottom: i32) -> (margin: Self)
        ensures
            margin == (LayerMargin { top: 0, right: 0, bottom, left: 0 }),
    {
        LayerMargin { top: 0, right: 0, bottom, left: 0 }
    }
}

/// Keyboard ownership a Shell surface asks the compositor for.
#[derive(Debug, Clone, Copy, PartialEq, Eq, Structural)]
pub enum LayerKeyboard {
    /// Never takes keyboard focus: wallpaper, Dock, top bar.
    NoFocus,
    /// Takes keyboard focus while mapped: the Launcher.
    Exclusive,
    /// Takes keyboard focus only when the user interacts with it.
    OnDemand,
}

/// Everything the compositor needs to place one Shell surface.
///
/// Sizes are physical pixels, matching the buffer that accompanies them.
#[derive(Debug, PartialEq, Eq)]
pub struct LayerPlacement {
    /// Stable Shell-chosen surface name, used to address it later.
    pub namespace: String,
    /// Stacking layer.
    pub layer: LayerShellLayer,
    /// Output edges the surface is pinned to.
    pub anchor: LayerAnchor,
    /// Distance from each anchored edge.
    pub margin: LayerMargin,
    /// Physical surface extent. A zero on an axis defers to the anchor.
    pub size: (i32, i32),
    /// Work area reserved from other surfaces, in physical pixels.
    pub exclusive_zone: i32,
    /// Keyboard ownership.
    pub keyboard: LayerKeyboard,
}

impl Clone for LayerPlacement {
    fn clone(&self) -> (copy: Self)
        ensures
            same_placement(copy, *self),
    {
        LayerPlacement {
            namespace: self.namespace.clone(),
            layer: self.layer,
            anchor: self.anchor,
            margin: self.margin,
            size: self.size,
            exclusive_zone: self.exclusive_zone,
            keyboard: self.keyboard,
        }
    }
}

/// Bytes an RGBA8 buffer of `size` holds, when both sides are non-negative
/// and the count fits in `usize`.
pub open spec fn buffer_bytes(size: (i32, i32)) -> Option<nat> {
    if size.0 >= 0 && size.1 >= 0 && size.0 * size.1 * 4 <= usize::MAX {
        Some((size.0 * size.1 * 4) as nat)
    } else {
        None
    }
}

impl LayerPlacement {
    /// Number of bytes a buffer for this placement must contain.
    pub fn buffer_len(&self) -> (len: Option<usize>)
        ensures
            match buffer_bytes(self.size) {
                Some(bytes) => len == Some(bytes as usize),
                None => len is None,
            },
    {
        if self.size.0 < 0 || self.size.1 < 0 {
            return None;
        }
        let width = self.size.0 as usize;
        let height = self.size.1 as usize;
        match width.checked_mul(height) {
            Some(area) => {
                let bytes = area.checked_mul(4);
                proof {
                    if bytes is None {
                        assert(width * height * 4 > usize::MAX);
                    }
                }
                bytes
            },
            None => {
                proof {
                    assert(width * height * 4 > usize::MAX) by (nonlinear_arith)
                        requires
                            width * height > usize::MAX,
                    ;
                }
                None
            },
        }
    }
}

#[verifier::external_type_specification]
#[verifier::external_body]
pub struct ExIoError(std::io::Error);

/// The `Display` text of an `io::Error`. Nothing is stated of the text.
#[verifier::external_body]
fn io_error_text(error: &std::io::Error) -> String {
    error.to_string()
}

/// A failure at the native Shell surface boundary.
#[derive(Debug)]
pub enum DesktopHostError {
    /// The connection to the compositor failed.
    Transport(std::io::Error),
    /// The compositor refused the connection or a capability.
    Refused(String),
    /// The compositor answered something the Shell cannot act on.
    Protocol(String),
    /// The Shell built a frame whose pixels do not match its placement.
    MalformedFrame(String),
}

impl DesktopHostError {
    /// The diagnostic text.
    pub fn message(&self) -> (message: String)
        ensures
            match self {
                DesktopHostError::Transport(_) => "SCP transport failed: "@.is_prefix_of(message@),
                DesktopHostError::Refused(reason) => message@ == "compositor refused the Shell: "@
                    + reason@,
                DesktopHostError::Protocol(reason) => message@ == "unexpected SCP response: "@
                    + reason@,
                DesktopHostError::MalformedFrame(reason) => message@ == "malformed Shell frame: "@
                    + reason@,
            },
    {
        let (mut message, detail) = match self {
            DesktopHostError::Transport(error) => (
                String::from_str("SCP transport failed: "),
                io_error_text(error),
            ),
            DesktopHostError::Refused(reason) => (
                String::from_str("compositor refused the Shell: "),
                reason.clone(),
            ),
            DesktopHostError::Protocol(reason) => (
                String::from_str("unexpected SCP response: "),
                reason.clone(),
            ),
            DesktopHostError::MalformedFrame(reason) => (
                String::from_str("malformed Shell frame: "),
                reason.clone(),
            ),
        };
        let ghost prefix = message@;
        message.append(detail.as_str());
        proof {
            assert(prefix.is_prefix_of(message@)) by {
                assert(message@.subrange(0, prefix.len() as int) =~= prefix);
            }
        }
        message
    }
}

/// The native boundary every SOL Shell surface presents through.
pub trait DesktopHost {
    /// Present one surface's frame, creating or re-placing it as needed.
    ///
    /// `pixels` is premultiplied RGBA8, row-major, exactly
    /// `placement.size.0 * placement.size.1 * 4` bytes.
    fn present(&mut self, placement: &LayerPlacement, pixels: &[u8]) -> Result<(), DesktopHostError>;

    /// Withdraw a surface by namespace. Withdrawing one that was never
    /// presented is not an error.
    fn dismiss(&mut self, namespace: &str) -> Result<(), DesktopHostError>;
}

/// The text of a frame whose pixel count does not match its placement.
pub open spec fn mismatch_text(placement: LayerPlacement, supplied: nat, expected: nat) -> Seq<char> {
    "surface '"@ + placement.namespace@ + "' supplied "@ + decimal(supplied) + " bytes for a "@
        + signed_decimal(placement.size.0 as int) + "x"@ + signed_decimal(placement.size.1 as int)
        + " frame needing "@ + decimal(expected)
}

fn mismatch(placement: &LayerPlacement, supplied: usize, expected: usize) -> (error: DesktopHostError)
    ensures
        error matches DesktopHostError::MalformedFrame(reason) && reason@ == mismatch_text(
            *placement,
            supplied as nat,
            expected as nat,
        ),
{
    let mut reason = String::from_str("surface '");
    reason.append(placement.namespace.as_str());
    reason.append("' supplied ");
    push_decimal(&mut reason, supplied as u64);
    reason.append(" bytes for a ");
    push_signed_decimal(&mut reason, placement.size.0 as i64);
    reason.append("x");
    push_signed_decimal(&mut reason, placement.size.1 as i64);
    reason.append(" frame needing ");
    push_decimal(&mut reason, expected as u64);
    DesktopHostError::MalformedFrame(reason)
}

/// The check a native host applies before a frame reaches the compositor:
/// the buffer size must be representable, non-zero, and exactly matched.
pub fn check_frame(placement: &LayerPlacement, supplied: usize) -> (result: Result<usize, DesktopHostError>)
    ensures
        match buffer_bytes(placement.size) {
            None => result matches Err(DesktopHostError::MalformedFrame(reason)) && reason@
                == "surface '"@ + placement.namespace@ + "' has an unrepresentable size ("@
                + signed_decimal(placement.size.0 as int) + ", "@ + signed_decimal(
                placement.size.1 as int,
            ) + ")"@,
            Some(expected) => if expected == 0 || supplied != expected {
                result matches Err(DesktopHostError::MalformedFrame(reason)) && reason@
                    == mismatch_text(*placement, supplied as nat, expected)
            } else {
                result == Ok::<usize, DesktopHostError>(supplied)
            },
        },
{
    let expected = match placement.buffer_len() {
        Some(expected) => expected,
        None => {
            let mut reason = String::from_str("surface '");
            reason.append(placement.namespace.as_str());
            reason.append("' has an unrepresentable size (");
            push_signed_decimal(&mut reason, placement.size.0 as i64);
            reason.append(", ");
            push_signed_decimal(&mut reason, placement.size.1 as i64);
            reason.append(")");
            return Err(DesktopHostError::MalformedFrame(reason));
        },
    };
    if expected == 0 || supplied != expected {
        return Err(mismatch(placement, supplied, expected));
    }
    Ok(supplied)
}

/// One configuration message a placement change requires.
#[derive(Debug, Clone, Copy, PartialEq, Eq, Structural)]
pub enum PlacementUpdate {
    Anchor(LayerAnchor),
    Margin(LayerMargin),
    Size(i32, i32),
    ExclusiveZone(i32),
    Keyboard(LayerKeyboard),
}

/// The messages that move a surface from `current` to `next`: one per
/// property whose value changed, in the order anchor, margin, size, exclusive
/// zone, keyboard.
pub open spec fn placement_updates_spec(current: LayerPlacement, next: LayerPlacement) -> Seq<
    PlacementUpdate,
> {
    (if current.anchor != next.anchor {
        seq![PlacementUpdate::Anchor(next.anchor)]
    } else {
        Seq::empty()
    }) + (if current.margin != next.margin {
        seq![PlacementUpdate::Margin(next.margin)]
    } else {
        Seq::empty()
    }) + (if current.size != next.size {
        seq![PlacementUpdate::Size(next.size.0, next.size.1)]
    } else {
        Seq::empty()
    }) + (if current.exclusive_zone != next.exclusive_zone {
        seq![PlacementUpdate::ExclusiveZone(next.exclusive_zone)]
    } else {
        Seq::empty()
    }) + (if current.keyboard != next.keyboard {
        seq![PlacementUpdate::Keyboard(next.keyboard)]
    } else {
        Seq::empty()
    })
}

/// Only the configuration messages whose value actually changed, so an
/// unchanged frame does not resend what the compositor would apply identically.
pub fn placement_updates(current: &LayerPlacement, next: &LayerPlacement) -> (updates: Vec<
    PlacementUpdate,
>)
    ensures
        updates@ == placement_updates_spec(*current, *next),
{
    let mut updates: Vec<PlacementUpdate> = Vec::new();
    let ghost mut expected: Seq<PlacementUpdate> = Seq::empty();
    if current.anchor != next.anchor {
        updates.push(PlacementUpdate::Anchor(next.anchor));
    }
    proof {
        expected = if current.anchor != next.anchor {
            seq![PlacementUpdate::Anchor(next.anchor)]
        } else {
            Seq::empty()
        };
        assert(updates@ =~= expected);
    }
    if current.margin != next.margin {
        updates.push(PlacementUpdate::Margin(next.margin));
    }
    proof {
        expected = expected + if current.margin != next.margin {
            seq![PlacementUpdate::Margin(next.margin)]
        } else {
            Seq::empty()
        };
        assert(updates@ =~= expected);
    }
    if current.size.0 != next.size.0 || current.size.1 != next.size.1 {
        updates.push(PlacementUpdate::Size(next.size.0, next.size.1));
    }
    proof {
        expected = expected + if current.size != next.size {
            seq![PlacementUpdate::Size(next.size.0, next.size.1)]
        } else {
            Seq::empty()
        };
        assert(updates@ =~= expected);
    }
    if current.exclusive_zone != next.exclusive_zone {
        updates.push(PlacementUpdate::ExclusiveZone(next.exclusive_zone));
    }
    proof {
        expected = expected + if current.exclusive_zone != next.exclusive_zone {
            seq![PlacementUpdate::ExclusiveZone(next.exclusive_zone)]
        } else {
            Seq::empty()
        };
        assert(updates@ =~= expected);
    }
    if current.keyboard != next.keyboard {
        updates.push(PlacementUpdate::Keyboard(next.keyboard));
    }
    proof {
        expected = expected + if current.keyboard != next.keyboard {
            seq![PlacementUpdate::Keyboard(next.keyboard)]
        } else {
            Seq::empty()
        };
        assert(updates@ =~= expected);
    }
    updates
}

/// The placement a freshly created surface is in before any of its own
/// configuration has been applied: nothing anchored, no margin, no size, no
/// reservation, no keyboard.
pub fn unconfigured_placement(namespace: String, layer: LayerShellLayer) -> (placement:
    LayerPlacement)
    ensures
        placement.namespace@ == namespace@,
        placement.layer == layer,
        placement.anchor == LayerAnchor::unanchored_spec(),
        placement.margin == (LayerMargin { top: 0, right: 0, bottom: 0, left: 0 }),
        placement.size == (0i32, 0i32),
        placement.exclusive_zone == 0,
        placement.keyboard == LayerKeyboard::NoFocus,
{
    LayerPlacement {
        namespace,
        layer,
        anchor: LayerAnchor::unanchored(),
        margin: LayerMargin::zero(),
        size: (0, 0),
        exclusive_zone: 0,
        keyboard: LayerKeyboard::NoFocus,
    }
}

impl LayerAnchor {
    /// Pinned to no edge.
    pub open spec fn unanchored_spec() -> LayerAnchor {
        LayerAnchor { top: false, bottom: false, left: false, right: false }
    }
}

/// A host that records frames instead of sending them.
///
/// Surface modules are tested against this: it makes placement and pixel
/// content assertable without a compositor, while the code under test is the
/// same code the native host drives.
#[derive(Debug)]
pub struct RecordingDesktopHost {
    /// Every presented frame, in order, as `(placement, pixels)`.
    pub presented: Vec<(LayerPlacement, Vec<u8>)>,
    /// Namespaces withdrawn, in order.
    pub dismissed: Vec<String>,
}

impl Default for RecordingDesktopHost {
    fn default() -> (host: Self)
        ensures
            host.presented@.len() == 0,
            host.dismissed@.len() == 0,
    {
        RecordingDesktopHost { presented: Vec::new(), dismissed: Vec::new() }
    }
}

/// Whether two placements agree in every field, the namespace by its text.
pub open spec fn same_placement(a: LayerPlacement, b: LayerPlacement) -> bool {
    &&& a.namespace@ == b.namespace@
    &&& a.layer == b.layer
    &&& a.anchor == b.anchor
    &&& a.margin == b.margin
    &&& a.size == b.size
    &&& a.exclusive_zone == b.exclusive_zone
    &&& a.keyboard == b.keyboard
}

/// Index of the most recent frame presented for `namespace`, or `-1`.
pub open spec fn last_frame_index(frames: Seq<(LayerPlacement, Vec<u8>)>, namespace: Seq<char>) -> int
    decreases frames.len(),
{
    if frames.len() == 0 {
        -1
    } else if frames.last().0.namespace@ == namespace {
        frames.len() - 1
    } else {
        last_frame_index(frames.drop_last(), namespace)
    }
}

impl RecordingDesktopHost {
    /// The most recent frame presented for one namespace.
    pub fn last_frame(&self, namespace: &str) -> (frame: Option<&(LayerPlacement, Vec<u8>)>)
        ensures
            last_frame_index(self.presented@, namespace@) < 0 ==> frame is None,
            last_frame_index(self.presented@, namespace@) >= 0 ==> frame == Some(
                &self.presented@[last_frame_index(self.presented@, namespace@)],
            ),
    {
        let mut i = self.presented.len();
        proof {
            assert(self.presented@.take(i as int) =~= self.presented@);
        }
        while i > 0
            invariant
                i <= self.presented@.len(),
                last_frame_index(self.presented@, namespace@) == last_frame_index(
                    self.presented@.take(i as int),
                    namespace@,
                ),
            decreases i,
        {
            proof {
                assert(self.presented@.take(i as int).drop_last() =~= self.presented@.take(i - 1));
            }
            if str_eq(self.presented[i - 1].0.namespace.as_str(), namespace) {
                return Some(&self.presented[i - 1]);
            }
            i = i - 1;
        }
        None
    }
}

fn copy_bytes(bytes: &[u8]) -> (copy: Vec<u8>)
    ensures
        copy@ == bytes@,
{
    let mut copy: Vec<u8> = Vec::new();
    let mut i: usize = 0;
    while i < bytes.len()
        invariant
            i <= bytes@.len(),
            copy@ == bytes@.take(i as int),
        decreases bytes@.len() - i,
    {
        copy.push(bytes[i]);
        i = i + 1;
        proof {
            assert(copy@ =~= bytes@.take(i as int));
        }
    }
    proof {
        assert(bytes@.take(i as int) =~= bytes@);
    }
    copy
}

impl DesktopHost for RecordingDesktopHost {
    /// Apply the same frame validation the native host does, so a surface
    /// module cannot pass its tests with a frame the compositor would reject;
    /// a valid frame is recorded with its placement.
    fn present(&mut self, placement: &LayerPlacement, pixels: &[u8]) -> (result: Result<
        (),
        DesktopHostError,
    >)
        ensures
            ({
                let expected = match buffer_bytes(placement.size) {
                    Some(bytes) => bytes,
                    None => 0,
                };
                if expected == 0 || pixels@.len() != expected {
                    &&& result matches Err(DesktopHostError::MalformedFrame(reason)) && reason@
                        == mismatch_text(*placement, pixels@.len(), expected)
                    &&& final(self).presented@ == old(self).presented@
                } else {
                    &&& result is Ok
                    &&& final(self).presented@.len() == old(self).presented@.len() + 1
                    &&& final(self).presented@.drop_last() == old(self).presented@
                    &&& same_placement(final(self).presented@.last().0, *placement)
                    &&& final(self).presented@.last().1@ == pixels@
                }
            }),
            final(self).dismissed@ == old(self).dismissed@,
    {
        let expected = match placement.buffer_len() {
            Some(expected) => expected,
            None => 0,
        };
        if expected == 0 || pixels.len() != expected {
            return Err(mismatch(placement, pixels.len(), expected));
        }
        let recorded = placement.clone();
        let ghost before = self.presented@;
        self.presented.push((recorded, copy_bytes(pixels)));
        proof {
            assert(self.presented@.drop_last() =~= before);
        }
        Ok(())
    }

    /// Record the withdrawn namespace.
    fn dismiss(&mut self, namespace: &str) -> (result: Result<(), DesktopHostError>)
        ensures
            result is Ok,
            final(self).dismissed@.len() == old(self).dismissed@.len() + 1,
            final(self).dismissed@.drop_last() == old(self).dismissed@,
            final(self).dismissed@.last()@ == namespace@,
            final(self).presented@ == old(self).presented@,
    {
        let ghost before = self.dismissed@;
        self.dismissed.push(String::from_str(namespace));
        proof {
            assert(self.dismissed@.drop_last() =~= before);
        }
        Ok(())
    }
}

} // verus!
