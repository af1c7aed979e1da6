use orbit_capture::frozen::{FrozenMonitor, FrozenSession};
use orbit_capture::screenshots::{
    crop, output_dimensions, CapturedImage, PixelRect, ScreenshotDestination,
};

fn ramp(width: u32, height: u32) -> CapturedImage {
    CapturedImage {
        rgba: (0..width * height * 4).map(|byte| byte as u8).collect(),
        width,
        height,
    }
}

fn monitor(id: u32, scale: f64, image: CapturedImage) -> FrozenMonitor<f64> {
    FrozenMonitor { id, detail: scale, image }
}

#[test]
fn a_still_goes_to_the_clipboard_unless_asked_otherwise() {
    let destination = ScreenshotDestination::default();
    assert_eq!(destination, ScreenshotDestination::Clipboard);
    assert!(destination.copies_to_clipboard());
    assert!(!destination.opens_export());
    assert!(ScreenshotDestination::Both.copies_to_clipboard());
    assert!(ScreenshotDestination::Both.opens_export());
    assert!(!ScreenshotDestination::Export.copies_to_clipboard());
    assert!(ScreenshotDestination::Export.opens_export());
}

#[test]
fn composed_screenshots_keep_to_a_sensible_size() {
    assert_eq!(output_dimensions(128, 64).unwrap(), (128, 64));
    assert_eq!(output_dimensions(10_000, 12_000).unwrap(), (10_000, 12_000));
    assert_eq!(
        output_dimensions(63, 400).unwrap_err(),
        "The screenshot output dimensions are not valid"
    );
    assert_eq!(
        output_dimensions(20_000, 7_000).unwrap_err(),
        "The screenshot output dimensions are not valid"
    );
}

#[test]
fn crops_whole_rows_of_the_selected_pixels() {
    let image = ramp(4, 4);
    let cropped = crop(&image, PixelRect { x: 1, y: 1, width: 2, height: 2 });
    assert_eq!((cropped.width, cropped.height), (2, 2));
    assert_eq!(cropped.rgba, [&image.rgba[20..28], &image.rgba[36..44]].concat());
}

#[test]
fn a_capture_installs_into_the_freeze_it_was_made_for() {
    let mut session = FrozenSession::<f64>::new();
    let generation = session.begin();
    assert!(session.is_current(generation));
    assert!(session.install(generation, vec![monitor(7, 2.0, ramp(4, 4))]));
    let (pixels, size) = session.snapshot(7).unwrap();
    assert_eq!(pixels, ramp(4, 4).rgba);
    assert_eq!((size.width, size.height), (4, 4));
    assert_eq!(session.frozen_size(7).unwrap(), (4, 4));
    assert_eq!(session.monitor(7).map(|m| m.detail), Some(2.0));
}

#[test]
fn a_capture_that_arrives_after_a_cancel_is_dropped() {
    let mut session = FrozenSession::<f64>::new();
    let generation = session.begin();
    assert!(!session.cancel());
    assert!(!session.install(generation, vec![monitor(7, 1.0, ramp(2, 2))]));
    assert_eq!(
        session.snapshot(7).unwrap_err(),
        "The frozen monitor image is no longer available"
    );
}

#[test]
fn a_capture_overtaken_by_a_newer_freeze_is_dropped() {
    let mut session = FrozenSession::<f64>::new();
    let stale = session.begin();
    let fresh = session.begin();
    assert_ne!(stale, fresh);
    assert!(!session.install(stale, vec![monitor(1, 1.0, ramp(2, 2))]));
    assert!(session.install(fresh, vec![monitor(1, 1.0, ramp(3, 3))]));
    assert_eq!(session.frozen_size(1).unwrap(), (3, 3));
    assert!(session.cancel());
    assert!(session.monitor(1).is_none());
}

#[test]
fn the_last_delivery_under_an_id_wins() {
    let mut session = FrozenSession::<f64>::new();
    let generation = session.begin();
    session.install(
        generation,
        vec![monitor(1, 1.0, ramp(2, 2)), monitor(1, 2.0, ramp(3, 3))],
    );
    assert_eq!(session.frozen_size(1).unwrap(), (3, 3));
}

#[test]
fn selecting_a_region_keeps_it_for_recognition() {
    let mut session = FrozenSession::<f64>::new();
    let generation = session.begin();
    session.install(generation, vec![monitor(3, 2.0, ramp(4, 4))]);
    let region = session
        .select_region(3, PixelRect { x: 1, y: 1, width: 2, height: 2 })
        .unwrap();
    assert_eq!(region.rgba, [&ramp(4, 4).rgba[20..28], &ramp(4, 4).rgba[36..44]].concat());
    assert_eq!(session.selected().unwrap().rgba, region.rgba);
    assert_eq!(
        session
            .select_region(3, PixelRect { x: 3, y: 0, width: 2, height: 1 })
            .err()
            .unwrap(),
        "The selected region is not on the monitor"
    );
    assert_eq!(
        session
            .select_region(4, PixelRect { x: 0, y: 0, width: 1, height: 1 })
            .err()
            .unwrap(),
        "The frozen monitor image is no longer available"
    );
    assert!(session.cancel());
    assert!(session.selected().is_none());
}

#[test]
fn details_derived_from_an_older_freeze_are_dropped() {
    let mut session = FrozenSession::<f64>::new();
    let stale = session.begin();
    let fresh = session.begin();
    session.install(fresh, vec![monitor(1, 1.0, ramp(2, 2))]);
    session.set_detail(stale, 1, 5.0);
    assert_eq!(session.monitor(1).map(|m| m.detail), Some(1.0));
    session.set_detail(fresh, 1, 5.0);
    assert_eq!(session.monitor(1).map(|m| m.detail), Some(5.0));
}
