//! The desktop background surface.
//!
//! The bottom of the SOL desktop: a background-layer surface covering the
//! whole output, beneath every application window, filled with one resolved
//! design token. The token's color is resolved by the native painter; what
//! the frame is placed as, when it may be produced at all, and that it is
//! one flat fill are decided here.

use vstd::prelude::*;
use crate::overlay::LayerShellLayer;
use crate::paint::{Canvas, MAX_DIMENSION};
use crate::scp_host::{DesktopHostError, LayerAnchor, LayerKeyboard, LayerMargin, LayerPlacement};

verus! {

/// Stable SCP namespace of the desktop background surface.
pub const DESKTOP_NAMESPACE: &'static str = "sol.desktop";

/// Errors raised before an invalid background frame reaches the compositor.
#[derive(Debug)]
pub enum DesktopSurfaceError {
    /// The compositor has not reported a usable output extent yet.
    OutputNotConfigured,
    /// The frame extent could not be allocated.
    UnpaintableExtent((u32, u32)),
    /// The native host rejected the frame.
    Host(DesktopHostError),
}

/// Whether the compositor has reported a usable output extent.
pub open spec fn configured(size: (i32, i32)) -> bool {
    size.0 > 0 && size.1 > 0
}

/// The background's placement on an output of physical `size`, with the
/// physical frame extent; refused until the output is configured. The
/// surface sits on the background layer, pinned to every edge, covering the
/// whole output and reserving nothing.
pub fn desktop_placement(size: (i32, i32)) -> (result: Result<(LayerPlacement, (u32, u32)), DesktopSurfaceError>)
    ensures
        !configured(size) ==> result matches Err(DesktopSurfaceError::OutputNotConfigured),
        configured(size) ==> (result matches Ok((placement, physical)) && placement.namespace@
            == DESKTOP_NAMESPACE@ && placement.layer == LayerShellLayer::Background
            && placement.anchor == (LayerAnchor { top: true, bottom: true, left: true, right: true })
            && placement.margin == (LayerMargin { top: 0, right: 0, bottom: 0, left: 0 })
            && placement.size == size && placement.exclusive_zone == 0 && placement.keyboard
            == LayerKeyboard::NoFocus && physical == (size.0 as u32, size.1 as u32)),
{
    if size.0 <= 0 || size.1 <= 0 {
        return Err(DesktopSurfaceError::OutputNotConfigured);
    }
    let placement = LayerPlacement {
        namespace: String::from_str(DESKTOP_NAMESPACE),
        layer: LayerShellLayer::Background,
        anchor: LayerAnchor::full(),
        margin: LayerMargin::zero(),
        size,
        exclusive_zone: 0,
        keyboard: LayerKeyboard::NoFocus,
    };
    Ok((placement, (size.0 as u32, size.1 as u32)))
}

/// Paint one background frame: every pixel the resolved background color,
/// premultiplied RGBA8, row-major. An extent no canvas may have is refused.
pub fn desktop_frame(physical: (u32, u32), fill: [u8; 4]) -> (result: Result<Vec<u8>, DesktopSurfaceError>)
    ensures
        (physical.0 == 0 || physical.1 == 0 || physical.0 > MAX_DIMENSION || physical.1
            > MAX_DIMENSION) ==> (result matches Err(
            DesktopSurfaceError::UnpaintableExtent(extent),
        ) && extent == physical),
        !(physical.0 == 0 || physical.1 == 0 || physical.0 > MAX_DIMENSION || physical.1
            > MAX_DIMENSION) ==> (result matches Ok(pixels) && pixels@.len() == physical.0
            * physical.1 * 4 && forall|i: int| 0 <= i < pixels@.len() ==> #[trigger] pixels@[i]
            == fill@[i % 4]),
{
    let mut canvas = match Canvas::new(physical.0, physical.1) {
        Some(canvas) => canvas,
        None => return Err(DesktopSurfaceError::UnpaintableExtent(physical)),
    };
    canvas.clear(fill);
    Ok(canvas.into_pixels())
}

} // verus!
