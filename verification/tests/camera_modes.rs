use orbit_capture::camera_modes::{nearest_rate_per_size, preferred_mode, sort_camera_modes};

#[test]
fn sorts_camera_modes_by_size_then_orientation() {
    let mut modes = vec![
        (640, 480, 60),
        (1080, 1920, 60),
        (1552, 1552, 60),
        (1760, 1328, 60),
        (1328, 1760, 60),
        (1920, 1080, 60),
    ];

    sort_camera_modes(&mut modes, 60);

    assert_eq!(
        modes,
        vec![
            (1920, 1080, 60),
            (1080, 1920, 60),
            (1760, 1328, 60),
            (1328, 1760, 60),
            (1552, 1552, 60),
            (640, 480, 60),
        ]
    );
}

#[test]
fn keeps_one_mode_per_size_at_the_nearest_rate() {
    let modes = vec![
        (1920, 1080, 25),
        (1280, 720, 60),
        (1920, 1080, 30),
        (1920, 1080, 35),
        (640, 480, 30),
    ];
    assert_eq!(
        nearest_rate_per_size(&modes, 30),
        vec![(640, 480, 30), (1280, 720, 60), (1920, 1080, 30)]
    );
}

#[test]
fn keeps_the_first_of_equally_near_rates() {
    assert_eq!(nearest_rate_per_size(&vec![(800, 600, 28), (800, 600, 32)], 30), vec![(800, 600, 28)]);
    assert_eq!(nearest_rate_per_size(&Vec::new(), 30), Vec::new());
}

#[test]
fn prefers_the_nearest_rate_then_sixteen_by_nine_then_more_pixels() {
    let modes = [(640, 480, 30), (1920, 1080, 30), (1280, 720, 60), (1280, 720, 30)];
    assert_eq!(preferred_mode(&modes, 30), Some((1920, 1080, 30)));
    assert_eq!(preferred_mode(&modes, 60), Some((1280, 720, 60)));
    assert_eq!(preferred_mode(&[], 60), None);
}
