use sol_shell::desktop_surface::{
    desktop_frame, desktop_placement, DesktopSurfaceError, DESKTOP_NAMESPACE,
};
use sol_shell::overlay::LayerShellLayer;
use sol_shell::scp_host::{DesktopHost, LayerAnchor, LayerKeyboard, RecordingDesktopHost};

#[test]
fn the_background_covers_the_whole_output_from_the_background_layer() {
    let (placement, physical) = desktop_placement((64, 32)).expect("placement");

    assert_eq!(placement.layer, LayerShellLayer::Background);
    assert_eq!(placement.anchor, LayerAnchor::full());
    assert_eq!(placement.size, (64, 32));
    assert_eq!(physical, (64, 32));
    assert_eq!(placement.exclusive_zone, 0);
    assert_eq!(placement.keyboard, LayerKeyboard::NoFocus);
    assert_eq!(placement.namespace, DESKTOP_NAMESPACE);
}

#[test]
fn every_pixel_is_the_resolved_background_token() {
    let mut host = RecordingDesktopHost::default();
    let (placement, physical) = desktop_placement((64, 32)).expect("placement");
    let fill = [18, 20, 24, 255];
    let pixels = desktop_frame(physical, fill).expect("paint");
    host.present(&placement, &pixels).expect("present");

    let (placement, pixels) = host.last_frame(DESKTOP_NAMESPACE).expect("frame");
    assert_eq!(placement.size, (64, 32));
    assert_eq!(pixels.len(), 64 * 32 * 4);
    let first = &pixels[..4];
    assert_eq!(first[3], 255, "the desktop background must be opaque");
    assert!(
        pixels.chunks(4).all(|pixel| pixel == first),
        "the background is one flat token fill"
    );
}

#[test]
fn theme_changes_the_fill_without_changing_the_layout() {
    let (light, physical) = desktop_placement((8, 8)).expect("placement");
    let (dark, _) = desktop_placement((8, 8)).expect("placement");
    assert_eq!(light, dark);
    assert_ne!(
        desktop_frame(physical, [240, 240, 242, 255]).expect("paint"),
        desktop_frame(physical, [18, 20, 24, 255]).expect("paint")
    );
}

#[test]
fn desktop_surface_an_unconfigured_output_refuses_to_produce_a_frame() {
    assert!(matches!(
        desktop_placement((0, 0)),
        Err(DesktopSurfaceError::OutputNotConfigured)
    ));
    assert!(matches!(
        desktop_placement((64, -1)),
        Err(DesktopSurfaceError::OutputNotConfigured)
    ));
}

#[test]
fn a_new_output_extent_is_adopted_on_the_next_frame() {
    let mut host = RecordingDesktopHost::default();
    for size in [(64, 32), (128, 16)] {
        let (placement, physical) = desktop_placement(size).expect("placement");
        let pixels = desktop_frame(physical, [0, 0, 0, 255]).expect("paint");
        host.present(&placement, &pixels).expect("present");
    }
    let (placement, pixels) = host.last_frame(DESKTOP_NAMESPACE).expect("frame");
    assert_eq!(placement.size, (128, 16));
    assert_eq!(pixels.len(), 128 * 16 * 4);
}

#[test]
fn an_extent_no_canvas_may_have_is_refused() {
    assert!(matches!(
        desktop_frame((20000, 10), [0, 0, 0, 255]),
        Err(DesktopSurfaceError::UnpaintableExtent((20000, 10)))
    ));
}
