use orbit_capture::capture_writer::{
    audio_pts, session_end_ns, AudioStep, FrameStep, Preroll, WriterCore, PREROLL_LIMIT,
};

#[test]
fn a_preroll_keeps_the_newest_buffers() {
    let mut preroll = Preroll::new();
    for buffer in 0..70 {
        preroll.push(buffer);
    }
    assert_eq!(preroll.len(), PREROLL_LIMIT);
    let waiting = preroll.take_all();
    assert_eq!(waiting.first(), Some(&6));
    assert_eq!(waiting.last(), Some(&69));
    assert_eq!(preroll.len(), 0);
}

#[test]
fn audio_waits_for_the_first_frame_and_is_dropped_while_paused() {
    let mut writer = WriterCore::new();
    assert_eq!(writer.audio(), AudioStep::Wait);
    assert_eq!(writer.frame(1_000, 5_000), FrameStep::Write { pts_ns: 0, first: true });
    assert_eq!(writer.audio(), AudioStep::Write);
    writer.pause(6_000);
    assert_eq!(writer.audio(), AudioStep::Drop);
    assert_eq!(writer.frame(2_000, 6_500), FrameStep::Hold);
    writer.resume(7_000);
    assert_eq!(writer.audio(), AudioStep::Write);
}

#[test]
fn frames_after_a_pause_lose_the_paused_time() {
    let mut writer = WriterCore::new();
    writer.frame(1_000, 5_000);
    writer.pause(6_000);
    writer.resume(7_000);
    assert_eq!(writer.frame(10_000, 10_000), FrameStep::Write { pts_ns: 8_000, first: false });
}

#[test]
fn the_first_frame_to_land_announces_the_recording_once() {
    let mut writer = WriterCore::new();
    assert!(writer.appended(0));
    assert!(!writer.appended(16_666_667));
}

#[test]
fn a_long_run_of_refusals_fails_the_recording_once() {
    let mut writer = WriterCore::new();
    for _ in 0..59 {
        assert_eq!(writer.refused("busy".to_owned(), false), None);
    }
    assert!(writer.accepts());
    assert_eq!(writer.refused("busy".to_owned(), false).as_deref(), Some("busy"));
    assert!(!writer.accepts());
    assert_eq!(writer.refused("busy".to_owned(), true), None);
}

#[test]
fn a_landed_frame_ends_a_run_of_refusals() {
    let mut writer = WriterCore::new();
    for _ in 0..59 {
        writer.refused("busy".to_owned(), false);
    }
    writer.appended(0);
    assert_eq!(writer.refused("busy".to_owned(), false), None);
    assert!(writer.accepts());
}

#[test]
fn a_failed_encoder_fails_the_recording_at_once() {
    let mut writer = WriterCore::new();
    assert_eq!(
        writer.refused("the recording could not continue".to_owned(), true).as_deref(),
        Some("the recording could not continue")
    );
}

#[test]
fn a_stopped_microphone_is_reported_once() {
    let mut writer = WriterCore::new();
    assert_eq!(
        writer.microphone_failed("unplugged").as_deref(),
        Some("The microphone stopped recording: unplugged")
    );
    assert_eq!(writer.microphone_failed("unplugged"), None);
}

#[test]
fn a_recording_without_frames_cannot_be_stopped() {
    let mut writer = WriterCore::new();
    assert_eq!(writer.stop_pts(1_000).unwrap_err(), "The recording captured no frames");
    writer.frame(1_000, 5_000);
    assert_eq!(writer.stop_pts(2_000_005_000).unwrap(), 2_000_000_000);
    assert_eq!(writer.stop_pts(5_000).unwrap(), 1);
}

#[test]
fn a_tracks_audio_timestamps_keep_increasing() {
    assert_eq!(audio_pts(100, Some(150)), 151);
    assert_eq!(audio_pts(200, Some(150)), 200);
    assert_eq!(audio_pts(5, None), 5);
}

#[test]
fn the_session_ends_where_the_media_ends() {
    assert_eq!(session_end_ns(Some(5_000), Some(7_000), Some(6_000)), 7_000);
    assert_eq!(session_end_ns(Some(9_000), None, Some(6_000)), 9_000);
    assert_eq!(session_end_ns(None, None, None), 0);
}
