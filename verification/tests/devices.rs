use orbit_capture::devices::{
    camera_listing, camera_mode_details, order_microphones, CameraCandidate, InputDeviceDetails,
};

fn microphone(id: &str, label: &str, is_default: bool) -> InputDeviceDetails {
    InputDeviceDetails { id: id.to_owned(), label: label.to_owned(), is_default }
}

#[test]
fn lists_the_default_microphone_first_then_by_name_whatever_the_case() {
    let listed = order_microphones(vec![
        microphone("c", "zoom H1", false),
        microphone("b", "Built-in", false),
        microphone("a", "USB Mic", true),
        microphone("d", "apogee", false),
    ]);
    let ids = listed.iter().map(|device| device.id.as_str()).collect::<Vec<_>>();
    assert_eq!(ids, ["a", "d", "b", "c"]);
}

#[test]
fn lists_a_microphone_reported_twice_once() {
    let listed = order_microphones(vec![
        microphone("x", "Studio", false),
        microphone("x", "Studio", false),
        microphone("y", "Headset", false),
    ]);
    let ids = listed.iter().map(|device| device.id.as_str()).collect::<Vec<_>>();
    assert_eq!(ids, ["y", "x"]);
}

#[test]
fn names_camera_modes_and_marks_the_preferred_one() {
    let details = camera_mode_details(vec![(640, 480, 30), (1920, 1080, 30), (1280, 720, 60)], 30);
    let ids = details.iter().map(|mode| mode.id.as_str()).collect::<Vec<_>>();
    assert_eq!(ids, ["1920x1080@30", "1280x720@60", "640x480@30"]);
    assert_eq!(details[0].label, "1920 × 1080");
    assert!(details[0].is_default);
    assert_eq!(details.iter().filter(|mode| mode.is_default).count(), 1);
}

#[test]
fn lists_cameras_with_modes_the_first_as_default() {
    let listed = camera_listing(
        vec![
            CameraCandidate {
                id: "cam-b".to_owned(),
                label: "Zeta Cam".to_owned(),
                modes: vec![(1280, 720, 30)],
            },
            CameraCandidate { id: "cam-x".to_owned(), label: "Empty".to_owned(), modes: vec![] },
            CameraCandidate {
                id: "cam-a".to_owned(),
                label: "alpha".to_owned(),
                modes: vec![(640, 480, 30), (1920, 1080, 30)],
            },
        ],
        30,
    );
    let ids = listed.iter().map(|camera| camera.id.as_str()).collect::<Vec<_>>();
    assert_eq!(ids, ["cam-b", "cam-a"]);
    assert!(listed[0].is_default);
    assert!(!listed[1].is_default);
    assert_eq!(listed[1].modes[0].id, "1920x1080@30");
    assert!(listed[1].modes[0].is_default);
}
