use orbit_capture::sources::SystemAudioSelection;
use orbit_capture::startup::{
    camera_role, needs_shareable_content, plan_limited_start, plan_system_audio, plan_video,
    recordable_area, require_camera, CameraRole, LimitedStart, PrimaryCaptureSource, ScreenVideo,
    SystemAudioPlan, VideoEncoder, VideoFormat, VideoSource,
};

const SCREEN: PrimaryCaptureSource = PrimaryCaptureSource::Screen {
    fps: 60,
    monitor_id: 1,
    show_cursor: true,
};

fn format(width: u32, height: u32, fps: u32) -> VideoFormat {
    VideoFormat { width, height, fps }
}

fn display(width: u32, height: u32) -> ScreenVideo {
    ScreenVideo { format: format(width, height, 60), is_window: false }
}

fn audio(enabled: bool, applications: &[&str]) -> SystemAudioSelection {
    SystemAudioSelection {
        application_ids: applications.iter().map(|id| id.to_string()).collect(),
        enabled,
        process_ids: Vec::new(),
    }
}

#[test]
fn a_screen_alone_is_written_with_h264() {
    let plan = plan_video(SCREEN, None, Some(display(2560, 1440))).unwrap();
    assert_eq!(plan.format, format(2560, 1440, 60));
    assert_eq!(plan.encoder, VideoEncoder::H264);
    assert_eq!(plan.source, VideoSource::Screen);
}

#[test]
fn a_screen_beside_a_camera_is_written_with_hevc() {
    let plan = plan_video(SCREEN, Some(format(1280, 720, 30)), Some(display(2560, 1440))).unwrap();
    assert_eq!(plan.encoder, VideoEncoder::Hevc);
    assert_eq!(
        camera_role(SCREEN, true, true).unwrap(),
        CameraRole::Secondary { encoder: VideoEncoder::Hevc }
    );
}

#[test]
fn a_camera_recording_takes_the_cameras_format() {
    let plan = plan_video(PrimaryCaptureSource::Camera, Some(format(1280, 720, 30)), None).unwrap();
    assert_eq!(plan.format, format(1280, 720, 30));
    assert_eq!(plan.encoder, VideoEncoder::H264);
    assert_eq!(plan.source, VideoSource::Camera);
    assert_eq!(camera_role(PrimaryCaptureSource::Camera, true, false).unwrap(), CameraRole::Primary);
}

#[test]
fn a_camera_recording_needs_a_camera() {
    assert_eq!(
        require_camera(PrimaryCaptureSource::Camera, None).unwrap_err(),
        "No camera is selected to record"
    );
    assert!(require_camera(SCREEN, None).is_ok());
    assert_eq!(
        plan_video(PrimaryCaptureSource::Camera, None, None).unwrap_err(),
        "No camera is selected to record"
    );
}

#[test]
fn a_screen_recording_needs_a_video_source_with_a_size() {
    assert_eq!(
        plan_video(SCREEN, None, None).unwrap_err(),
        "No video source is available for recording"
    );
    assert_eq!(
        plan_video(SCREEN, None, Some(display(0, 1440))).unwrap_err(),
        "The selected video source has no usable size"
    );
}

#[test]
fn a_second_camera_needs_somewhere_to_record() {
    assert_eq!(
        camera_role(SCREEN, true, false).unwrap_err(),
        "The camera has nowhere to record"
    );
    assert_eq!(camera_role(SCREEN, false, false).unwrap(), CameraRole::Absent);
}

#[test]
fn only_screen_video_and_system_audio_need_shareable_content() {
    assert!(needs_shareable_content(SCREEN, false));
    assert!(!needs_shareable_content(PrimaryCaptureSource::Camera, false));
    assert!(needs_shareable_content(PrimaryCaptureSource::Camera, true));
}

#[test]
fn a_display_captures_all_system_audio_itself() {
    let plan = plan_system_audio(&audio(true, &[]), Some(display(100, 100)), true).unwrap();
    assert_eq!(
        plan,
        SystemAudioPlan { all_stream: false, selected_stream: false, video_captures_all: true }
    );
}

#[test]
fn a_window_recording_takes_all_system_audio_from_a_stream_of_its_own() {
    let window = ScreenVideo { format: format(800, 600, 60), is_window: true };
    let plan = plan_system_audio(&audio(true, &[]), Some(window), true).unwrap();
    assert_eq!(
        plan,
        SystemAudioPlan { all_stream: true, selected_stream: false, video_captures_all: false }
    );
}

#[test]
fn selected_applications_get_a_stream_of_their_own() {
    let plan =
        plan_system_audio(&audio(true, &["com.example.player"]), Some(display(100, 100)), true)
            .unwrap();
    assert_eq!(
        plan,
        SystemAudioPlan { all_stream: false, selected_stream: true, video_captures_all: false }
    );
}

#[test]
fn system_audio_needs_a_display() {
    assert_eq!(
        plan_system_audio(&audio(true, &[]), None, false).unwrap_err(),
        "No monitor is available for audio capture"
    );
    assert_eq!(
        plan_system_audio(&audio(false, &[]), None, false).unwrap(),
        SystemAudioPlan { all_stream: false, selected_stream: false, video_captures_all: false }
    );
}

#[test]
fn where_only_screens_are_recorded_the_choices_narrow() {
    assert_eq!(
        plan_limited_start(SCREEN, false, false, false, false).unwrap(),
        LimitedStart::Screen { fps: 60, monitor_id: 1, show_cursor: true }
    );
    assert_eq!(
        plan_limited_start(SCREEN, true, false, false, false).unwrap_err(),
        "Camera recording is not yet available on Windows"
    );
    assert_eq!(
        plan_limited_start(PrimaryCaptureSource::Audio, false, false, false, false).unwrap_err(),
        "Select a microphone or system audio source"
    );
    assert_eq!(
        plan_limited_start(PrimaryCaptureSource::Audio, false, false, true, false).unwrap(),
        LimitedStart::AudioOnly
    );
    let window = PrimaryCaptureSource::Window { fps: 30, show_cursor: false, window_id: 9 };
    assert_eq!(
        plan_limited_start(window, false, false, false, false).unwrap_err(),
        "Only full-screen recording is available on Windows right now"
    );
}

#[test]
fn a_monitor_is_recorded_at_even_edges() {
    assert_eq!(recordable_area(1919, 1081).unwrap(), (1918, 1080));
    assert_eq!(
        recordable_area(1, 1080).unwrap_err(),
        "The selected monitor has no recordable area"
    );
}
