use orbit_capture::window_styles::{frameless_styles, icon_rgba, SavedStyles};

const VISIBLE_OVERLAPPED: i64 = 0x14CF_0000;
const EDGES: i64 = 0x300;

#[test]
fn a_frameless_window_loses_its_frame_and_becomes_a_popup() {
    assert_eq!(frameless_styles(VISIBLE_OVERLAPPED, EDGES), (0x9400_0000, 0));
    assert_eq!(frameless_styles(-1, -1), (0xFF30_FFFF, 0xFFFD_FCFE));
}

#[test]
fn a_frame_comes_back_as_it_was() {
    let mut saved = SavedStyles::new();
    let frameless = saved.make_frameless(7, VISIBLE_OVERLAPPED, EDGES);
    assert_eq!(frameless, (0x9400_0000, 0));
    assert_eq!(saved.make_frameless(7, frameless.0, frameless.1), frameless);
    assert_eq!(saved.restore_frame(7, frameless.0, frameless.1), (VISIBLE_OVERLAPPED, EDGES));
    assert_eq!(
        saved.restore_frame(7, frameless.0, frameless.1),
        (0x94CF_0000, EDGES)
    );
}

#[test]
fn windows_keep_their_own_saved_styles() {
    let mut saved = SavedStyles::new();
    saved.make_frameless(1, 0x10CF_0000, 0x100);
    saved.make_frameless(2, 0x14CF_0000, 0x200);
    assert_eq!(saved.restore_frame(1, 0, 0), (0x10CF_0000, 0x100));
    assert_eq!(saved.restore_frame(2, 0, 0), (0x14CF_0000, 0x200));
}

#[test]
fn icons_become_rgba_and_opaque_when_drawn_without_alpha() {
    assert_eq!(icon_rgba(&vec![1, 2, 3, 0, 4, 5, 6, 0]), [3, 2, 1, 255, 6, 5, 4, 255]);
    assert_eq!(icon_rgba(&vec![1, 2, 3, 9, 4, 5, 6, 0]), [3, 2, 1, 9, 6, 5, 4, 0]);
    assert_eq!(icon_rgba(&vec![1, 2, 3, 0, 7]), [3, 2, 1, 255, 7]);
}
