use orbit_capture::geometry::{
    contain_in_work_area, fallback_position, monitor_with_most_overlap, overlap_area,
    window_is_on_a_monitor, Position, Size,
};

fn at(x: i32, y: i32) -> Position {
    Position { x, y }
}

fn size(width: u32, height: u32) -> Size {
    Size { width, height }
}

#[test]
fn measures_the_area_a_window_shares_with_a_monitor() {
    assert_eq!(overlap_area(at(0, 0), size(100, 100), at(50, 50), size(100, 100)), 2_500);
    assert_eq!(overlap_area(at(0, 0), size(100, 100), at(200, 0), size(10, 10)), 0);
}

#[test]
fn a_window_off_every_monitor_is_not_on_one() {
    let monitors = vec![(at(0, 0), size(1920, 1080)), (at(1920, 0), size(1280, 1024))];
    assert!(window_is_on_a_monitor(&monitors, at(1900, 10), size(100, 50)));
    assert!(!window_is_on_a_monitor(&monitors, at(-500, -500), size(100, 50)));
}

#[test]
fn picks_the_monitor_a_window_covers_most() {
    let monitors = vec![(at(0, 0), size(1920, 1080)), (at(1920, 0), size(1280, 1024))];
    assert_eq!(monitor_with_most_overlap(&monitors, at(1900, 10), size(100, 50)), Some(1));
    assert_eq!(monitor_with_most_overlap(&monitors, at(100, 10), size(100, 50)), Some(0));
    assert_eq!(monitor_with_most_overlap(&monitors, at(-900, 10), size(100, 50)), Some(1));
    assert_eq!(monitor_with_most_overlap(&Vec::new(), at(0, 0), size(1, 1)), None);
}

#[test]
fn places_a_lost_window_centred_above_the_bottom_edge() {
    assert_eq!(fallback_position(at(0, 0), size(1920, 1080), size(400, 80)), at(760, 900));
    assert_eq!(fallback_position(at(100, 50), size(300, 100), size(400, 80)), at(100, 50));
}

#[test]
fn keeps_the_pill_inside_the_work_area() {
    assert_eq!(contain_in_work_area(at(-20, 5), size(200, 40), at(0, 25), size(1440, 850)), at(0, 25));
    assert_eq!(
        contain_in_work_area(at(1400, 900), size(200, 40), at(0, 25), size(1440, 850)),
        at(1240, 835)
    );
    assert_eq!(contain_in_work_area(at(300, 300), size(200, 40), at(0, 25), size(1440, 850)), at(300, 300));
    assert_eq!(contain_in_work_area(at(50, 50), size(2000, 40), at(0, 25), size(1440, 850)), at(0, 50));
}
