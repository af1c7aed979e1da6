use orbit_capture::media_settings::{
    average_bitrate_u32, frame_duration_100ns, keyframe_spacing, packed_pair,
    recorded_duration_ms, time_to_ns,
};

#[test]
fn a_frame_lasts_one_frame_period() {
    assert_eq!(frame_duration_100ns(60), 166_666);
    assert_eq!(frame_duration_100ns(30), 333_333);
    assert_eq!(frame_duration_100ns(0), 10_000_000);
}

#[test]
fn keyframes_come_every_half_second() {
    assert_eq!(keyframe_spacing(60), 30);
    assert_eq!(keyframe_spacing(1), 1);
    assert_eq!(keyframe_spacing(0), 1);
}

#[test]
fn packs_a_size_with_the_width_on_top() {
    assert_eq!(packed_pair(1920, 1080), (1920_u64 << 32) | 1080);
    assert_eq!(packed_pair(60, 1), 257_698_037_761);
}

#[test]
fn the_encoder_bitrate_fits_an_unsigned_attribute() {
    assert_eq!(average_bitrate_u32(1920, 1080, 60), 12_441_600);
    assert_eq!(average_bitrate_u32(16, 16, 1), 1_000_000);
}

#[test]
fn reads_a_rational_media_time_in_nanoseconds() {
    assert_eq!(time_to_ns(600, 600, true), Some(1_000_000_000));
    assert_eq!(time_to_ns(-1, 3, true), Some(-333_333_333));
    assert_eq!(time_to_ns(1, 3, true), Some(333_333_333));
    assert_eq!(time_to_ns(1, 0, true), None);
    assert_eq!(time_to_ns(1, 600, false), None);
    assert_eq!(time_to_ns(i64::MAX, 1, true), None);
}

#[test]
fn a_recordings_length_is_its_last_frames_timestamp() {
    assert_eq!(recorded_duration_ms(Some(1_999_999_999)), 1_999);
    assert_eq!(recorded_duration_ms(None), 0);
    assert_eq!(recorded_duration_ms(Some(-5)), 0);
}
