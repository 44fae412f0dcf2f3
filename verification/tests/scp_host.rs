use sol_shell::overlay::LayerShellLayer;
use sol_shell::scp_host::{
    check_frame, placement_updates, unconfigured_placement, DesktopHost, DesktopHostError,
    LayerAnchor, LayerKeyboard, LayerMargin, LayerPlacement, PlacementUpdate, RecordingDesktopHost,
};

fn placement(namespace: &str, size: (i32, i32)) -> LayerPlacement {
    LayerPlacement {
        namespace: namespace.to_owned(),
        layer: LayerShellLayer::Top,
        anchor: LayerAnchor::top_bar(),
        margin: LayerMargin::zero(),
        size,
        exclusive_zone: size.1,
        keyboard: LayerKeyboard::NoFocus,
    }
}

#[test]
fn a_frame_whose_pixels_do_not_match_its_placement_is_refused() {
    let mut host = RecordingDesktopHost::default();
    let error = host
        .present(&placement("sol.topbar", (4, 2)), &[0; 16])
        .expect_err("a short buffer must not reach the compositor");

    assert!(matches!(error, DesktopHostError::MalformedFrame(_)));
    assert!(host.presented.is_empty());
}

#[test]
fn a_well_formed_frame_is_recorded_with_its_placement() {
    let mut host = RecordingDesktopHost::default();
    host.present(&placement("sol.topbar", (4, 2)), &[7; 32])
        .expect("present a matching frame");

    let (recorded, pixels) = host.last_frame("sol.topbar").expect("recorded frame");
    assert_eq!(recorded.size, (4, 2));
    assert_eq!(recorded.exclusive_zone, 2);
    assert_eq!(pixels.len(), 32);
}

#[test]
fn a_zero_sized_placement_is_never_presentable() {
    let mut host = RecordingDesktopHost::default();
    assert!(host.present(&placement("sol.dock", (0, 40)), &[]).is_err());
    assert_eq!(placement("sol.dock", (0, 40)).buffer_len(), Some(0));
    assert_eq!(placement("sol.dock", (-1, 40)).buffer_len(), None);
}

#[test]
fn anchors_map_onto_the_compositors_edge_flags() {
    assert!(LayerAnchor::full().top && LayerAnchor::full().bottom);
    assert!(LayerAnchor::top_bar().left && LayerAnchor::top_bar().right);
    assert!(!LayerAnchor::top_bar().bottom);
    // Neither horizontal edge: the compositor centers it.
    assert!(!LayerAnchor::bottom_center().left && !LayerAnchor::bottom_center().right);
    assert!(LayerAnchor::bottom_center().bottom);
}

#[test]
fn the_mismatch_message_names_the_surface_and_both_sizes() {
    let mut host = RecordingDesktopHost::default();
    match host.present(&placement("sol.topbar", (4, 2)), &[0; 16]) {
        Err(DesktopHostError::MalformedFrame(reason)) => assert_eq!(
            reason,
            "surface 'sol.topbar' supplied 16 bytes for a 4x2 frame needing 32"
        ),
        other => panic!("unexpected {other:?}"),
    }
    match check_frame(&placement("sol.dock", (-1, 40)), 0) {
        Err(DesktopHostError::MalformedFrame(reason)) => {
            assert_eq!(reason, "surface 'sol.dock' has an unrepresentable size (-1, 40)")
        }
        other => panic!("unexpected {other:?}"),
    }
    assert_eq!(check_frame(&placement("sol.dock", (2, 2)), 16).unwrap(), 16);
}

#[test]
fn the_last_frame_is_the_most_recent_for_its_namespace() {
    let mut host = RecordingDesktopHost::default();
    host.present(&placement("sol.topbar", (1, 1)), &[1; 4]).unwrap();
    host.present(&placement("sol.dock", (1, 1)), &[2; 4]).unwrap();
    host.present(&placement("sol.topbar", (2, 1)), &[3; 8]).unwrap();
    assert_eq!(host.last_frame("sol.topbar").unwrap().1, vec![3; 8]);
    assert_eq!(host.last_frame("sol.dock").unwrap().1, vec![2; 4]);
    assert!(host.last_frame("sol.launcher").is_none());
    host.dismiss("sol.dock").unwrap();
    assert_eq!(host.dismissed, vec!["sol.dock".to_owned()]);
}

#[test]
fn only_changed_placement_properties_are_sent() {
    let current = placement("sol.topbar", (4, 2));
    assert!(placement_updates(&current, &current.clone()).is_empty());
    let mut next = current.clone();
    next.size = (8, 2);
    next.keyboard = LayerKeyboard::Exclusive;
    assert_eq!(
        placement_updates(&current, &next),
        vec![PlacementUpdate::Size(8, 2), PlacementUpdate::Keyboard(LayerKeyboard::Exclusive)]
    );
    let fresh = unconfigured_placement("sol.topbar".to_owned(), LayerShellLayer::Top);
    assert_eq!(
        placement_updates(&fresh, &current),
        vec![
            PlacementUpdate::Anchor(LayerAnchor::top_bar()),
            PlacementUpdate::Size(4, 2),
            PlacementUpdate::ExclusiveZone(2),
        ]
    );
}

#[test]
fn host_errors_name_their_kind() {
    assert_eq!(
        DesktopHostError::Refused("no".into()).message(),
        "compositor refused the Shell: no"
    );
    assert_eq!(
        DesktopHostError::MalformedFrame("bad".into()).message(),
        "malformed Shell frame: bad"
    );
    let transport = DesktopHostError::Transport(std::io::Error::other("gone"));
    assert!(transport.message().starts_with("SCP transport failed: "));
}

#[test]
fn a_bottom_margin_sets_only_the_bottom_edge() {
    assert_eq!(LayerMargin::bottom(8), LayerMargin { top: 0, right: 0, bottom: 8, left: 0 });
}
