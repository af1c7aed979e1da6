//! The cursor events a recording notes down on Windows, where the cursor is
//! polled: each poll reads its position, its cursor handle and the state of the
//! five mouse buttons, and these functions decide which events that poll
//! emits.
use vstd::prelude::*;

verus! {

/// A mouse button.
#[derive(Clone, Copy, Debug, PartialEq, Eq, Structural)]
pub enum CursorButton {
    Left,
    Right,
    Middle,
    /// A further button, by its number.
    Other(u8),
}

/// Whether a button went down or came up.
#[derive(Clone, Copy, Debug, PartialEq, Eq, Structural)]
pub enum ButtonState {
    Down,
    Up,
}

/// What a cursor event records.
#[derive(Clone, Copy, Debug, PartialEq, Eq, Structural)]
pub enum CursorEventKind {
    /// The cursor as it stands when the recording begins.
    Snapshot,
    /// The cursor moved.
    Move,
    /// The cursor stayed where it was but changed its shape.
    Appearance,
    /// A button went down or came up.
    Button { button: CursorButton, click_count: u32, state: ButtonState },
}

/// What a cursor poller remembers between polls.
#[derive(Clone, Copy, Debug)]
pub struct CursorPollState {
    /// Whether the opening snapshot has been written.
    pub wrote_initial: bool,
    /// The position noted at the previous poll after the snapshot.
    pub last_position: Option<(i32, i32)>,
    /// The cursor handle seen at the previous poll.
    pub last_cursor: Option<usize>,
    /// Whether each of the left, right, middle and the two further buttons
    /// was down.
    pub buttons: [bool; 5],
}

/// The button the poller reads in place `i`: left, right, middle, then the
/// further buttons 3 and 4.
pub open spec fn button_at(i: int) -> CursorButton {
    if i == 0 {
        CursorButton::Left
    } else if i == 1 {
        CursorButton::Right
    } else if i == 2 {
        CursorButton::Middle
    } else if i == 3 {
        CursorButton::Other(3)
    } else {
        CursorButton::Other(4)
    }
}

/// The button events of the first `k` buttons, in order: one for each button
/// whose state changed from `was` to `now`, a single click going down or up.
pub open spec fn button_events(was: Seq<bool>, now: Seq<bool>, k: int) -> Seq<CursorEventKind>
    decreases k,
{
    if k <= 0 {
        Seq::empty()
    } else {
        let earlier = button_events(was, now, k - 1);
        if now[k - 1] != was[k - 1] {
            earlier.push(
                CursorEventKind::Button {
                    button: button_at(k - 1),
                    click_count: 1,
                    state: if now[k - 1] {
                        ButtonState::Down
                    } else {
                        ButtonState::Up
                    },
                },
            )
        } else {
            earlier
        }
    }
}

/// The poller's state after a poll that read the cursor at (`x`, `y`) with
/// handle `cursor` and the buttons as `pressed`, and the events it emits.
/// Before the opening snapshot is written, every poll offers a snapshot and
/// notes only the handle. After it, a poll emits a move when the position
/// changed, or else an appearance event when the handle changed, and then one
/// event for each button whose state changed.
pub open spec fn cursor_poll_spec(
    state: CursorPollState,
    x: i32,
    y: i32,
    cursor: usize,
    pressed: [bool; 5],
) -> (CursorPollState, Seq<CursorEventKind>) {
    if !state.wrote_initial {
        (CursorPollState { last_cursor: Some(cursor), ..state }, seq![CursorEventKind::Snapshot])
    } else {
        let first = if state.last_position != Some((x, y)) {
            seq![CursorEventKind::Move]
        } else if state.last_cursor != Some(cursor) {
            seq![CursorEventKind::Appearance]
        } else {
            Seq::empty()
        };
        (
            CursorPollState {
                wrote_initial: true,
                last_position: Some((x, y)),
                last_cursor: Some(cursor),
                buttons: pressed,
            },
            first + button_events(state.buttons@, pressed@, 5),
        )
    }
}

impl CursorPollState {
    /// A poller that has written nothing, with the buttons as they are when
    /// polling begins.
    pub fn new(pressed: [bool; 5]) -> (r: CursorPollState)
        ensures
            !r.wrote_initial,
            r.last_position is None,
            r.last_cursor is None,
            r.buttons == pressed,
    {
        CursorPollState { wrote_initial: false, last_position: None, last_cursor: None, buttons: pressed }
    }
}

/// Whether the cursor's shape must be read again: its handle differs from the
/// one seen at the previous poll.
pub fn cursor_changed(state: &CursorPollState, cursor: usize) -> (r: bool)
    ensures
        r == (state.last_cursor != Some(cursor)),
{
    match state.last_cursor {
        Some(last) => last != cursor,
        None => true,
    }
}

/// Decides what a poll emits (see `cursor_poll_spec`).
pub fn cursor_poll_step(state: CursorPollState, x: i32, y: i32, cursor: usize, pressed: [bool; 5]) -> (r: (
    CursorPollState,
    Vec<CursorEventKind>,
))
    ensures
        r.0 == cursor_poll_spec(state, x, y, cursor, pressed).0,
        r.1@ == cursor_poll_spec(state, x, y, cursor, pressed).1,
{
    if !state.wrote_initial {
        let mut events: Vec<CursorEventKind> = Vec::new();
        events.push(CursorEventKind::Snapshot);
        assert(events@ =~= seq![CursorEventKind::Snapshot]);
        return (CursorPollState { last_cursor: Some(cursor), ..state }, events);
    }
    let moved = match state.last_position {
        Some((px, py)) => px != x || py != y,
        None => true,
    };
    let mut events: Vec<CursorEventKind> = Vec::new();
    if moved {
        events.push(CursorEventKind::Move);
    } else if cursor_changed(&state, cursor) {
        events.push(CursorEventKind::Appearance);
    }
    let ghost first = events@;
    let mut i: usize = 0;
    while i < 5
        invariant
            i <= 5,
            events@ == first + button_events(state.buttons@, pressed@, i as int),
        decreases 5 - i,
    {
        let was = state.buttons[i];
        let now = pressed[i];
        if now != was {
            let button = if i == 0 {
                CursorButton::Left
            } else if i == 1 {
                CursorButton::Right
            } else if i == 2 {
                CursorButton::Middle
            } else if i == 3 {
                CursorButton::Other(3)
            } else {
                CursorButton::Other(4)
            };
            let button_state = if now {
                ButtonState::Down
            } else {
                ButtonState::Up
            };
            events.push(CursorEventKind::Button { button, click_count: 1, state: button_state });
        }
        i += 1;
        assert(events@ =~= first + button_events(state.buttons@, pressed@, i as int));
    }
    let next = CursorPollState {
        wrote_initial: true,
        last_position: Some((x, y)),
        last_cursor: Some(cursor),
        buttons: pressed,
    };
    (next, events)
}

/// The poller's state once the sink has answered whether it wrote the opening
/// snapshot: a snapshot it refused is offered again at the next poll.
pub fn snapshot_written(state: CursorPollState, written: bool) -> (r: CursorPollState)
    ensures
        r == (CursorPollState { wrote_initial: state.wrote_initial || written, ..state }),
{
    CursorPollState { wrote_initial: state.wrote_initial || written, ..state }
}

} // verus!
