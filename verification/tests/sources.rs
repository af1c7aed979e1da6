use orbit_capture::sources::{
    app_identity, audio_application, selectable_window_ids, CursorStyle, StandardCursors,
    SystemAudioSelection, WindowListEntry,
};
use orbit_capture::text::trim_white_space;

#[test]
fn only_windows_on_the_normal_layer_can_be_selected() {
    let entries = vec![
        WindowListEntry { layer: Some(0), number: Some(11) },
        WindowListEntry { layer: Some(25), number: Some(12) },
        WindowListEntry { layer: Some(0), number: None },
        WindowListEntry { layer: None, number: Some(14) },
        WindowListEntry { layer: Some(0), number: Some(15) },
    ];
    assert_eq!(selectable_window_ids(Some(&entries)), Some(vec![11, 15]));
    assert_eq!(selectable_window_ids(None), None);
}

#[test]
fn names_the_standard_cursors_and_nothing_else() {
    let cursors = StandardCursors {
        arrow: 1,
        crosshair: 2,
        hand: 3,
        ibeam: 4,
        not_allowed: 5,
        resize_horizontal: 6,
        resize_vertical: 7,
    };
    assert_eq!(cursors.style(1), CursorStyle::Arrow);
    assert_eq!(cursors.style(4), CursorStyle::IBeam);
    assert_eq!(cursors.style(7), CursorStyle::ResizeVertical);
    assert_eq!(cursors.style(99), CursorStyle::Custom);
}

#[test]
fn identifies_an_application_by_its_lower_cased_executable() {
    assert_eq!(
        app_identity(Some("C:\\Program Files\\Spotify\\Spotify.EXE")),
        Some("c:\\program files\\spotify\\spotify.exe".to_owned())
    );
    assert_eq!(app_identity(None), None);
}

#[test]
fn disabled_system_audio_selects_nothing() {
    let selection = SystemAudioSelection::disabled();
    assert!(!selection.enabled);
    assert!(selection.application_ids.is_empty());
    assert!(selection.process_ids.is_empty());
}

#[test]
fn trims_white_space_from_both_ends() {
    assert_eq!(trim_white_space("  Music \t"), "Music");
    assert_eq!(trim_white_space("   "), "");
    assert_eq!(trim_white_space("a b"), "a b");
}

#[test]
fn lists_ordinary_applications_by_their_trimmed_name() {
    let app = audio_application(4242, true, 1, "com.spotify.client".to_owned(), "  Spotify ".to_owned())
        .unwrap();
    assert_eq!(app.id, "com.spotify.client");
    assert_eq!(app.label, "Spotify");
    assert_eq!(app.pid, 4242);
}

#[test]
fn leaves_out_background_blank_and_own_applications() {
    let app = |pid: i32, regular: bool, id: &str, label: &str| {
        audio_application(pid, regular, 77, id.to_owned(), label.to_owned())
    };
    assert!(app(-1, true, "a.b", "A").is_none());
    assert!(app(5, false, "a.b", "A").is_none());
    assert!(app(77, true, "a.b", "A").is_none());
    assert!(app(5, true, "  ", "A").is_none());
    assert!(app(5, true, "a.b", "").is_none());
    assert!(app(5, true, "a.b", "A").is_some());
}

#[test]
fn white_space_is_what_the_standard_library_calls_white_space() {
    for code in 0..=0x10FFFFu32 {
        if let Some(c) = char::from_u32(code) {
            let trimmed = trim_white_space(&c.to_string());
            assert_eq!(trimmed.is_empty(), c.is_whitespace(), "U+{code:04X}");
        }
    }
}
