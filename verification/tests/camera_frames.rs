use orbit_capture::camera_frames::{
    bgra_pixels, camera_frame_clock, warmup_complete, CameraFrameStep, CameraGate,
    WindowsCameraGate, WindowsFrameStep,
    WARMUP_MIN_FRAMES, WARMUP_NS,
};

const MS: u64 = 1_000_000;
const SECOND: u64 = 1_000_000_000;

#[test]
fn camera_becomes_ready_only_after_frames_and_time_have_warmed_up() {
    assert!(!warmup_complete(WARMUP_MIN_FRAMES - 1, WARMUP_NS));
    assert!(!warmup_complete(WARMUP_MIN_FRAMES, WARMUP_NS - MS));
    assert!(warmup_complete(WARMUP_MIN_FRAMES, WARMUP_NS));
}

#[test]
fn converts_rgba_to_native_bgra_and_mirrors_when_requested() {
    let rgba = [1, 2, 3, 4, 10, 20, 30, 40];
    assert_eq!(bgra_pixels(&rgba, 2, 1, false), [3, 2, 1, 4, 30, 20, 10, 40]);
    assert_eq!(bgra_pixels(&rgba, 2, 1, true), [30, 20, 10, 40, 3, 2, 1, 4]);
}

#[test]
fn native_capture_time_removes_webcam_delivery_latency() {
    let arrived = 50 * SECOND;
    let epoch = 10_000 * SECOND;
    let (captured, source) =
        camera_frame_clock(Some(epoch - 120 * MS), arrived, Some(epoch), arrived - SECOND);
    assert_eq!(arrived - captured, 120 * MS);
    assert_eq!(source, 99_998_800_000);
}

#[test]
fn implausible_camera_clock_uses_arrival_time() {
    let started = 50 * SECOND;
    let arrived = started + 250 * MS;
    let (captured, source) = camera_frame_clock(Some(SECOND), arrived, Some(10 * SECOND), started);
    assert_eq!(captured, arrived);
    assert_eq!(source, 2_500_000);
}

#[test]
fn a_camera_clock_running_ahead_of_arrival_uses_arrival_time() {
    let started = 50 * SECOND;
    let arrived = started + 40 * MS;
    let (captured, source) =
        camera_frame_clock(Some(11 * SECOND), arrived, Some(10 * SECOND), started);
    assert_eq!(captured, arrived);
    assert_eq!(source, 400_000);
}

#[test]
fn mirrors_every_row_of_a_taller_frame() {
    let rgba = [
        1, 2, 3, 4, 5, 6, 7, 8, //
        9, 10, 11, 12, 13, 14, 15, 16,
    ];
    assert_eq!(
        bgra_pixels(&rgba, 2, 2, true),
        [7, 6, 5, 8, 3, 2, 1, 4, 15, 14, 13, 16, 11, 10, 9, 12]
    );
}

#[test]
fn a_camera_is_recorded_once_it_has_warmed_up() {
    let mut gate = CameraGate::new(1280, 720);
    for at in [0, 100, 200, 300] {
        assert_eq!(gate.frame(1280, 720, at * MS), CameraFrameStep::WarmingUp);
    }
    assert_eq!(gate.frame(1280, 720, 500 * MS), CameraFrameStep::Record { ready: true });
    assert_eq!(gate.frame(1280, 720, 533 * MS), CameraFrameStep::Record { ready: false });
}

#[test]
fn a_camera_delivering_the_wrong_size_is_abandoned() {
    let mut gate = CameraGate::new(1280, 720);
    assert_eq!(
        gate.frame(640, 480, 0),
        CameraFrameStep::WrongSize {
            report: Some(
                "The camera delivered 640 × 480 instead of the selected 1280 × 720 format"
                    .to_owned()
            )
        }
    );
    assert_eq!(gate.frame(1280, 720, MS), CameraFrameStep::Ignore);
}

#[test]
fn a_ready_camera_that_changes_size_is_abandoned_quietly() {
    let mut gate = CameraGate::new(2, 2);
    for at in 0..6 {
        gate.frame(2, 2, at * 200 * MS);
    }
    assert_eq!(gate.frame(4, 4, 2 * SECOND), CameraFrameStep::WrongSize { report: None });
}

#[test]
fn a_windows_camera_counts_every_frame_towards_its_warm_up() {
    let mut gate = WindowsCameraGate::new(1280, 720);
    assert_eq!(gate.frame(640, 480, 0), WindowsFrameStep::WarmingUp);
    for at in [100, 200, 300] {
        assert_eq!(gate.frame(1280, 720, at * MS), WindowsFrameStep::WarmingUp);
    }
    assert_eq!(gate.frame(1280, 720, 500 * MS), WindowsFrameStep::Record { announce: true });
    assert_eq!(gate.frame(1280, 720, 533 * MS), WindowsFrameStep::Record { announce: false });
}

#[test]
fn a_windows_camera_of_the_wrong_size_fails_once_warmed_up() {
    let mut gate = WindowsCameraGate::new(1280, 720);
    for at in [0, 100, 200, 300] {
        assert_eq!(gate.frame(640, 480, at * MS), WindowsFrameStep::WarmingUp);
    }
    assert_eq!(
        gate.frame(640, 480, 500 * MS),
        WindowsFrameStep::WrongSize {
            announce: true,
            report: Some(
                "Camera recording failed: The camera delivered 640 x 480 instead of the selected 1280 x 720 format"
                    .to_owned()
            ),
        }
    );
    assert_eq!(gate.frame(1280, 720, 533 * MS), WindowsFrameStep::Ignore);
}

#[test]
fn a_windows_camera_reports_only_its_first_failure() {
    let mut gate = WindowsCameraGate::new(2, 2);
    assert_eq!(
        gate.report_failure("the frame could not be decoded".to_owned()),
        Some("Camera recording failed: the frame could not be decoded".to_owned())
    );
    assert_eq!(gate.report_failure("again".to_owned()), None);
    for at in 0..5 {
        gate.frame(2, 2, at * 200 * MS);
    }
    assert_eq!(
        gate.frame(4, 4, SECOND),
        WindowsFrameStep::WrongSize { announce: false, report: None }
    );
}

#[test]
fn a_cancelled_windows_camera_ignores_its_frames() {
    let mut gate = WindowsCameraGate::new(2, 2);
    gate.cancel();
    assert_eq!(gate.frame(2, 2, 0), WindowsFrameStep::Ignore);
}
