use orbit_capture::audio_packets::{
    needs_padding, next_packet_pts, sample_trim, silence_packet, stereo_samples, SampleTrim,
    TapBuffer,
};

#[test]
fn keeps_a_packet_that_starts_with_the_movie() {
    assert_eq!(sample_trim(1_000, 1_000, 480, Some(10_000_000)), SampleTrim::Keep);
    assert_eq!(sample_trim(1_000, 2_000, 480, Some(10_000_000)), SampleTrim::Keep);
}

#[test]
fn trims_a_packet_at_the_first_sample_after_the_origin() {
    assert_eq!(sample_trim(1_000, 0, 480, Some(10_000)), SampleTrim::Trim { frames: 48 });
    assert_eq!(sample_trim(1_001, 0, 480, Some(10_000)), SampleTrim::Trim { frames: 49 });
}

#[test]
fn drops_a_packet_wholly_before_the_movie_or_of_unknown_length() {
    assert_eq!(sample_trim(10_000, 0, 480, Some(10_000)), SampleTrim::Drop);
    assert_eq!(sample_trim(1_000, 0, 0, Some(10_000)), SampleTrim::Drop);
    assert_eq!(sample_trim(1_000, 0, 480, None), SampleTrim::Drop);
    assert_eq!(sample_trim(1_000, 0, 480, Some(0)), SampleTrim::Drop);
    assert_eq!(sample_trim(5, 0, 1, Some(10)), SampleTrim::Drop);
}

#[test]
fn a_tracks_packets_never_overlap() {
    assert_eq!(next_packet_pts(100, Some(150)), 150);
    assert_eq!(next_packet_pts(200, Some(150)), 200);
    assert_eq!(next_packet_pts(100, None), 100);
}

#[test]
fn pads_only_tracks_that_end_early() {
    assert!(needs_padding(true, None, 0));
    assert!(needs_padding(true, Some(5), 10));
    assert!(!needs_padding(true, Some(10), 10));
    assert!(!needs_padding(false, None, 10));
}

#[test]
fn pads_a_long_gap_with_one_full_packet_ending_at_the_movies_end() {
    let packet = silence_packet(0, 1_000_000_000, 48_000);
    assert_eq!(packet.pts_ns, 978_666_667);
    assert_eq!(packet.frames, 1_024);
    assert_eq!(packet.end_ns, 1_000_000_000);
}

#[test]
fn pads_a_short_gap_with_at_least_one_frame() {
    let packet = silence_packet(999_990_000, 1_000_000_000, 48_000);
    assert_eq!(packet.pts_ns, 999_990_000);
    assert_eq!(packet.frames, 1);
    assert_eq!(packet.end_ns, 1_000_010_833);
}

fn tap_buffer(samples: &[f32], channels: u32) -> TapBuffer<f32> {
    TapBuffer { channels, samples: samples.to_vec() }
}

#[test]
fn keeps_an_interleaved_stereo_tap_interleaved() {
    let samples = [0.1, 0.2, 0.3, 0.4];
    let first = tap_buffer(&samples, 2);
    let unused = tap_buffer(&[], 0);
    assert_eq!(stereo_samples(1, &first, &unused), Some(samples.to_vec()));
}

#[test]
fn interleaves_a_planar_stereo_tap() {
    let left = tap_buffer(&[0.1, 0.3], 1);
    let right = tap_buffer(&[0.2, 0.4], 1);
    assert_eq!(stereo_samples(2, &left, &right), Some(vec![0.1, 0.2, 0.3, 0.4]));
}

#[test]
fn weaves_planar_channels_only_as_far_as_the_shorter_one() {
    let left = tap_buffer(&[0.1, 0.3, 0.5], 1);
    let right = tap_buffer(&[0.2, 0.4], 1);
    assert_eq!(stereo_samples(2, &left, &right), Some(vec![0.1, 0.2, 0.3, 0.4]));
    assert_eq!(stereo_samples(7, &left, &right), Some(vec![0.1, 0.2, 0.3, 0.4]));
}

#[test]
fn a_mono_or_empty_tap_is_not_stereo() {
    let mono = tap_buffer(&[0.1, 0.2], 1);
    let unused = tap_buffer(&[], 0);
    assert_eq!(stereo_samples(1, &mono, &unused), None);
    assert_eq!(stereo_samples(0, &mono, &unused), None);
}
