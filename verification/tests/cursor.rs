use orbit_capture::cursor::{
    cursor_changed, cursor_poll_step, snapshot_written, ButtonState, CursorButton, CursorEventKind,
    CursorPollState,
};

const UP: [bool; 5] = [false; 5];

fn started() -> CursorPollState {
    let state = CursorPollState::new(UP);
    let (state, events) = cursor_poll_step(state, 10, 20, 7, UP);
    assert_eq!(events, vec![CursorEventKind::Snapshot]);
    snapshot_written(state, true)
}

#[test]
fn the_first_poll_offers_a_snapshot_until_it_is_written() {
    let state = CursorPollState::new(UP);
    let (state, events) = cursor_poll_step(state, 10, 20, 7, UP);
    assert_eq!(events, vec![CursorEventKind::Snapshot]);
    assert_eq!(state.last_cursor, Some(7));
    assert_eq!(state.last_position, None);
    let state = snapshot_written(state, false);
    let (state, events) = cursor_poll_step(state, 11, 20, 7, UP);
    assert_eq!(events, vec![CursorEventKind::Snapshot]);
    let state = snapshot_written(state, true);
    assert!(state.wrote_initial);
}

#[test]
fn the_poll_after_the_snapshot_notes_where_the_cursor_is() {
    let (state, events) = cursor_poll_step(started(), 10, 20, 7, UP);
    assert_eq!(events, vec![CursorEventKind::Move]);
    assert_eq!(state.last_position, Some((10, 20)));
}

#[test]
fn a_still_cursor_emits_nothing_and_a_moved_one_a_move() {
    let (state, _) = cursor_poll_step(started(), 10, 20, 7, UP);
    let (state, events) = cursor_poll_step(state, 10, 20, 7, UP);
    assert!(events.is_empty());
    let (_, events) = cursor_poll_step(state, 12, 20, 9, UP);
    assert_eq!(events, vec![CursorEventKind::Move]);
}

#[test]
fn a_cursor_that_changes_shape_in_place_emits_an_appearance() {
    let (state, _) = cursor_poll_step(started(), 10, 20, 7, UP);
    assert!(cursor_changed(&state, 9));
    assert!(!cursor_changed(&state, 7));
    let (_, events) = cursor_poll_step(state, 10, 20, 9, UP);
    assert_eq!(events, vec![CursorEventKind::Appearance]);
}

#[test]
fn each_button_that_changes_emits_a_click() {
    let (state, _) = cursor_poll_step(started(), 10, 20, 7, UP);
    let (state, events) = cursor_poll_step(state, 10, 20, 7, [true, false, false, false, true]);
    assert_eq!(
        events,
        vec![
            CursorEventKind::Button {
                button: CursorButton::Left,
                click_count: 1,
                state: ButtonState::Down,
            },
            CursorEventKind::Button {
                button: CursorButton::Other(4),
                click_count: 1,
                state: ButtonState::Down,
            },
        ]
    );
    let (_, events) = cursor_poll_step(state, 11, 20, 7, [false, false, false, false, true]);
    assert_eq!(
        events,
        vec![
            CursorEventKind::Move,
            CursorEventKind::Button {
                button: CursorButton::Left,
                click_count: 1,
                state: ButtonState::Up,
            },
        ]
    );
}

#[test]
fn buttons_held_before_the_snapshot_are_not_clicks() {
    let held = [false, true, false, false, false];
    let state = CursorPollState::new(held);
    let (state, _) = cursor_poll_step(state, 0, 0, 1, UP);
    let state = snapshot_written(state, true);
    let (_, events) = cursor_poll_step(state, 0, 0, 1, held);
    assert_eq!(events, vec![CursorEventKind::Move]);
}
