use orbit_capture::monitor::{
    camera_payload, level_payload, sources_payload, LevelSource, Subscriptions,
};

#[test]
fn says_which_sources_are_live_in_one_byte() {
    assert_eq!(sources_payload(true, false, true), [0, 5]);
    assert_eq!(sources_payload(false, true, false), [0, 2]);
    assert_eq!(sources_payload(true, true, true), [0, 7]);
    assert_eq!(sources_payload(false, false, false), [0, 0]);
}

#[test]
fn frames_a_camera_thumbnail_with_its_size() {
    assert_eq!(camera_payload(300, 2, vec![9, 8]), [3, 44, 1, 2, 0, 9, 8]);
}

#[test]
fn frames_a_level_as_a_little_endian_float() {
    let level = (-6.5_f32).to_le_bytes();
    let payload = level_payload(LevelSource::Microphone, level);
    assert_eq!(payload[0], 2);
    assert_eq!(f32::from_le_bytes([payload[1], payload[2], payload[3], payload[4]]), -6.5);
    assert_eq!(level_payload(LevelSource::SystemAudio, level)[0], 1);
}

#[test]
fn only_the_newest_dock_receives_signals() {
    let mut subscriptions = Subscriptions::new();
    assert!(!subscriptions.is_subscribed());
    assert!(subscriptions.subscribe(5, "first"));
    assert!(!subscriptions.subscribe(3, "older"));
    assert_eq!(subscriptions.channel(), Some(&"first"));
    subscriptions.unsubscribe(3);
    assert_eq!(subscriptions.channel(), Some(&"first"));
    assert!(subscriptions.subscribe(7, "newest"));
    subscriptions.unsubscribe(5);
    assert_eq!(subscriptions.channel(), Some(&"newest"));
    subscriptions.unsubscribe(7);
    assert!(!subscriptions.is_subscribed());
}
