use orbit_capture::clocks::{
    after_stop, microphone_buffer_from_origin, AudioOnlyClock, Buffer, CursorClock, Format,
};

const MS: u64 = 1_000_000;
const SECOND: u64 = 1_000_000_000;

#[test]
fn platform_trims_microphone_preroll_at_whole_pcm_frames() {
    let captured_at: u64 = 1_000_000_000;
    let microphone = Buffer {
        captured_at_ns: captured_at,
        samples: (0..40).map(|sample| sample as f32).collect(),
    };
    let trimmed = microphone_buffer_from_origin(
        microphone,
        captured_at + 5 * MS,
        Format {
            channels: 2,
            sample_rate: 1_000,
        },
    )
    .expect("the buffer overlaps time zero");

    assert_eq!(trimmed.captured_at_ns, captured_at + 5 * MS);
    assert_eq!(
        trimmed.samples,
        (10..40).map(|sample| sample as f32).collect::<Vec<_>>()
    );
}

#[test]
fn platform_drops_a_microphone_buffer_wholly_before_video() {
    let captured_at: u64 = 1_000_000_000;
    let microphone = Buffer {
        captured_at_ns: captured_at,
        samples: vec![0.0_f32; 40],
    };

    assert!(microphone_buffer_from_origin(
        microphone,
        captured_at + 30 * MS,
        Format {
            channels: 2,
            sample_rate: 1_000,
        },
    )
    .is_none());
}

#[test]
fn tests_trims_microphone_preroll_at_whole_pcm_frames() {
    let captured_at: u64 = 1_000_000_000;
    let microphone = Buffer {
        captured_at_ns: captured_at,
        samples: (0..40).map(|sample| sample as f32).collect(),
    };
    let trimmed = microphone_buffer_from_origin(
        microphone,
        captured_at + 5 * MS,
        Format {
            channels: 2,
            sample_rate: 1_000,
        },
    )
    .expect("the buffer overlaps time zero");

    assert_eq!(trimmed.captured_at_ns, captured_at + 5 * MS);
    assert_eq!(
        trimmed.samples,
        (10..40).map(|sample| sample as f32).collect::<Vec<_>>()
    );
}

#[test]
fn tests_drops_a_microphone_buffer_wholly_before_video() {
    let captured_at: u64 = 1_000_000_000;
    let microphone = Buffer {
        captured_at_ns: captured_at,
        samples: vec![0.0_f32; 40],
    };

    assert!(microphone_buffer_from_origin(
        microphone,
        captured_at + 30 * MS,
        Format {
            channels: 2,
            sample_rate: 1_000,
        },
    )
    .is_none());
}

#[test]
fn rejects_frames_captured_after_the_user_pressed_stop() {
    let base: u64 = 7 * SECOND;
    let mut stopped_at = None;
    assert!(!after_stop(stopped_at, base + 10 * SECOND));
    stopped_at = Some(base + SECOND);
    assert!(!after_stop(stopped_at, base + SECOND));
    assert!(after_stop(stopped_at, base + SECOND + 1));
}

#[test]
fn clock_removes_paused_time() {
    let origin: u64 = 3 * SECOND;
    let mut clock = CursorClock::new(Some(origin));

    assert_eq!(clock.timestamp_us(origin + 2 * SECOND), Some(2_000_000));
    clock.pause(origin + 3 * SECOND);
    assert_eq!(clock.timestamp_us(origin + 5 * SECOND), None);
    clock.resume(origin + 8 * SECOND);
    assert_eq!(clock.timestamp_us(origin + 9 * SECOND), Some(4_000_000));
}

#[test]
fn an_audio_only_recording_leaves_its_pauses_out() {
    let t0 = 100 * SECOND;
    let mut clock = AudioOnlyClock::new(t0);
    clock.pause(t0 + 3 * SECOND);
    clock.resume(t0 + 8 * SECOND);
    assert_eq!(clock.duration_ms(t0 + 9 * SECOND), 4_000);
}

#[test]
fn an_audio_only_pause_keeps_its_first_start_and_counts_while_open() {
    let t0 = 100 * SECOND;
    let mut clock = AudioOnlyClock::new(t0);
    clock.resume(t0 + SECOND);
    clock.pause(t0 + 2 * SECOND);
    clock.pause(t0 + 5 * SECOND);
    assert_eq!(clock.duration_ms(t0 + 6 * SECOND), 2_000);
    clock.resume(t0 + 7 * SECOND);
    clock.pause(t0 + 10 * SECOND);
    assert_eq!(clock.duration_ms(t0 + 12 * SECOND + 500 * MS), 5_000);
}
