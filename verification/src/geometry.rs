//! Window and monitor geometry in physical pixels.
use vstd::prelude::*;

verus! {

/// A position in physical pixels.
#[derive(Clone, Copy, Debug, PartialEq, Eq, Structural)]
pub struct Position {
    pub x: i32,
    pub y: i32,
}

/// A size in physical pixels.
#[derive(Clone, Copy, Debug, PartialEq, Eq, Structural)]
pub struct Size {
    pub width: u32,
    pub height: u32,
}

/// The larger of two integers.
pub open spec fn max_of(a: int, b: int) -> int {
    if a >= b {
        a
    } else {
        b
    }
}

/// The smaller of two integers.
pub open spec fn min_of(a: int, b: int) -> int {
    if a <= b {
        a
    } else {
        b
    }
}

/// The area two rectangles share.
pub open spec fn overlap_spec(
    monitor_position: Position,
    monitor_size: Size,
    window_position: Position,
    window_size: Size,
) -> int {
    let left = max_of(window_position.x as int, monitor_position.x as int);
    let top = max_of(window_position.y as int, monitor_position.y as int);
    let right = min_of(
        window_position.x + window_size.width,
        monitor_position.x + monitor_size.width,
    );
    let bottom = min_of(
        window_position.y + window_size.height,
        monitor_position.y + monitor_size.height,
    );
    max_of(right - left, 0) * max_of(bottom - top, 0)
}

/// Whether a rectangle is a rectangle of the desktop: its size and its far
/// edges are `i32` values.
pub open spec fn fits_i32(position: Position, size: Size) -> bool {
    &&& size.width <= i32::MAX
    &&& size.height <= i32::MAX
    &&& position.x + size.width <= i32::MAX
    &&& position.y + size.height <= i32::MAX
}

/// The area, in physical pixels, that a window shares with a monitor.
pub fn overlap_area(
    monitor_position: Position,
    monitor_size: Size,
    window_position: Position,
    window_size: Size,
) -> (r: i64)
    requires
        fits_i32(monitor_position, monitor_size),
        fits_i32(window_position, window_size),
    ensures
        r == overlap_spec(monitor_position, monitor_size, window_position, window_size),
        r >= 0,
{
    let left = if window_position.x >= monitor_position.x {
        window_position.x
    } else {
        monitor_position.x
    };
    let top = if window_position.y >= monitor_position.y {
        window_position.y
    } else {
        monitor_position.y
    };
    let window_right = window_position.x as i64 + window_size.width as i64;
    let monitor_right = monitor_position.x as i64 + monitor_size.width as i64;
    let right = if window_right <= monitor_right {
        window_right
    } else {
        monitor_right
    };
    let window_bottom = window_position.y as i64 + window_size.height as i64;
    let monitor_bottom = monitor_position.y as i64 + monitor_size.height as i64;
    let bottom = if window_bottom <= monitor_bottom {
        window_bottom
    } else {
        monitor_bottom
    };
    let across = if right - left as i64 > 0 {
        right - left as i64
    } else {
        0
    };
    let down = if bottom - top as i64 > 0 {
        bottom - top as i64
    } else {
        0
    };
    assert(0 <= across * down <= 0x7fff_ffff * 0x7fff_ffff) by (nonlinear_arith)
        requires
            0 <= across <= 0x7fff_ffff,
            0 <= down <= 0x7fff_ffff,
    ;
    across * down
}

/// Whether any part of a window lands on one of the monitors.
pub fn window_is_on_a_monitor(monitors: &Vec<(Position, Size)>, window_position: Position, window_size: Size) -> (r: bool)
    requires
        fits_i32(window_position, window_size),
        forall|i: int| 0 <= i < monitors@.len() ==> fits_i32(#[trigger] monitors@[i].0, monitors@[i].1),
    ensures
        r == exists|i: int|
            0 <= i < monitors@.len() && overlap_spec(
                #[trigger] monitors@[i].0,
                monitors@[i].1,
                window_position,
                window_size,
            ) > 0,
{
    let mut i: usize = 0;
    while i < monitors.len()
        invariant
            i <= monitors@.len(),
            fits_i32(window_position, window_size),
            forall|k: int| 0 <= k < monitors@.len() ==> fits_i32(#[trigger] monitors@[k].0, monitors@[k].1),
            forall|k: int|
                0 <= k < i ==> overlap_spec(
                    #[trigger] monitors@[k].0,
                    monitors@[k].1,
                    window_position,
                    window_size,
                ) <= 0,
        decreases monitors@.len() - i,
    {
        let (position, size) = monitors[i];
        if overlap_area(position, size, window_position, window_size) > 0 {
            return true;
        }
        i = i + 1;
    }
    false
}

/// The monitor a window sits on most: the last of the monitors sharing the
/// largest area with it (so the last monitor when it touches none), or none
/// when there are no monitors.
pub fn monitor_with_most_overlap(monitors: &Vec<(Position, Size)>, window_position: Position, window_size: Size) -> (r: Option<usize>)
    requires
        fits_i32(window_position, window_size),
        forall|i: int| 0 <= i < monitors@.len() ==> fits_i32(#[trigger] monitors@[i].0, monitors@[i].1),
    ensures
        monitors@.len() == 0 <==> r is None,
        r matches Some(k) ==> {
            &&& k < monitors@.len()
            &&& forall|j: int|
                0 <= j < monitors@.len() ==> overlap_spec(
                    #[trigger] monitors@[j].0,
                    monitors@[j].1,
                    window_position,
                    window_size,
                ) <= overlap_spec(monitors@[k as int].0, monitors@[k as int].1, window_position, window_size)
            &&& forall|j: int|
                k < j < monitors@.len() ==> overlap_spec(
                    #[trigger] monitors@[j].0,
                    monitors@[j].1,
                    window_position,
                    window_size,
                ) < overlap_spec(monitors@[k as int].0, monitors@[k as int].1, window_position, window_size)
        },
{
    if monitors.len() == 0 {
        return None;
    }
    let (position, size) = monitors[0];
    let mut best: usize = 0;
    let mut best_area = overlap_area(position, size, window_position, window_size);
    let mut i: usize = 1;
    while i < monitors.len()
        invariant
            0 < monitors@.len(),
            best < i <= monitors@.len(),
            fits_i32(window_position, window_size),
            forall|k: int| 0 <= k < monitors@.len() ==> fits_i32(#[trigger] monitors@[k].0, monitors@[k].1),
            best_area == overlap_spec(monitors@[best as int].0, monitors@[best as int].1, window_position, window_size),
            forall|j: int|
                0 <= j < i ==> overlap_spec(
                    #[trigger] monitors@[j].0,
                    monitors@[j].1,
                    window_position,
                    window_size,
                ) <= best_area,
            forall|j: int|
                best < j < i ==> overlap_spec(
                    #[trigger] monitors@[j].0,
                    monitors@[j].1,
                    window_position,
                    window_size,
                ) < best_area,
        decreases monitors@.len() - i,
    {
        let (position, size) = monitors[i];
        let area = overlap_area(position, size, window_position, window_size);
        if area >= best_area {
            best = i;
            best_area = area;
        }
        i = i + 1;
    }
    Some(best)
}

/// Where a window goes when it is placed on a monitor from scratch: centred
/// across, with its bottom edge 100 pixels above the monitor's.
pub open spec fn fallback_position_spec(monitor_position: Position, monitor_size: Size, window_size: Size) -> (int, int) {
    let spare_width = if monitor_size.width >= window_size.width {
        monitor_size.width - window_size.width
    } else {
        0
    };
    let spare_height = if monitor_size.height >= window_size.height + 100 {
        monitor_size.height - (window_size.height + 100)
    } else {
        0
    };
    (monitor_position.x + spare_width / 2, monitor_position.y + spare_height)
}

/// Where the recording bar is placed on a monitor when it has no saved
/// position (or its saved one is on no monitor): centred across, its bottom
/// edge 100 pixels above the monitor's.
pub fn fallback_position(monitor_position: Position, monitor_size: Size, window_size: Size) -> (r: Position)
    requires
        fits_i32(monitor_position, monitor_size),
        window_size.height + 100 <= u32::MAX,
    ensures
        (r.x as int, r.y as int) == fallback_position_spec(monitor_position, monitor_size, window_size),
{
    let spare_width = monitor_size.width.saturating_sub(window_size.width);
    let spare_height = monitor_size.height.saturating_sub(window_size.height + 100);
    Position {
        x: (monitor_position.x as i64 + (spare_width / 2) as i64) as i32,
        y: (monitor_position.y as i64 + spare_height as i64) as i32,
    }
}

/// `value` held between `low` and `high`, or at `low` when the range is empty.
pub open spec fn clamp_spec(value: int, low: int, high: int) -> int {
    if value < low {
        low
    } else if value > high {
        if high >= low {
            high
        } else {
            low
        }
    } else {
        value
    }
}

/// Clamps the recording pill into a work area so a drag cannot park it under
/// the menu bar, a notch or the taskbar. A pill larger than the work area sits
/// at its top-left corner.
pub fn contain_in_work_area(
    position: Position,
    size: Size,
    work_position: Position,
    work_size: Size,
) -> (r: Position)
    requires
        fits_i32(work_position, work_size),
    ensures
        r.x == clamp_spec(
            position.x as int,
            work_position.x as int,
            work_position.x + (if work_size.width >= size.width {
                work_size.width - size.width
            } else {
                0
            }),
        ),
        r.y == clamp_spec(
            position.y as int,
            work_position.y as int,
            work_position.y + (if work_size.height >= size.height {
                work_size.height - size.height
            } else {
                0
            }),
        ),
{
    let max_x = (work_position.x as i64 + work_size.width.saturating_sub(size.width) as i64) as i32;
    let max_y = (work_position.y as i64 + work_size.height.saturating_sub(size.height) as i64) as i32;
    let x = if position.x < work_position.x {
        work_position.x
    } else if position.x > max_x {
        max_x
    } else {
        position.x
    };
    let y = if position.y < work_position.y {
        work_position.y
    } else if position.y > max_y {
        max_y
    } else {
        position.y
    };
    Position { x, y }
}

} // verus!
