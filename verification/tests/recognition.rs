use orbit_capture::frozen::{gradient_stream, GradientMaps, RulerGradientsMeta};
use orbit_capture::ocr::recognized_text;

#[test]
fn streams_the_horizontal_plane_before_the_vertical_one() {
    let gradients = GradientMaps {
        gx: vec![1, 2, 3, 4, 5, 6],
        gy: vec![10, 20, 30, 40, 50, 60],
        width: 3,
        height: 2,
    };
    let (planes, meta) = gradient_stream(&gradients);
    assert_eq!(planes, vec![1, 2, 3, 4, 5, 6, 10, 20, 30, 40, 50, 60]);
    assert_eq!(meta, RulerGradientsMeta { height: 2, width: 3 });
    assert_eq!(planes.len(), 2 * (meta.width * meta.height) as usize);
}

#[test]
fn streams_nothing_for_an_empty_monitor() {
    let gradients = GradientMaps { gx: Vec::new(), gy: Vec::new(), width: 0, height: 0 };
    let (planes, meta) = gradient_stream(&gradients);
    assert!(planes.is_empty());
    assert_eq!(meta, RulerGradientsMeta { height: 0, width: 0 });
}

#[test]
fn puts_each_recognized_line_on_a_line_of_its_own() {
    let lines = vec!["fn main() {".to_owned(), "    42".to_owned(), "}".to_owned()];
    assert_eq!(recognized_text(&lines), "fn main() {\n    42\n}");
}

#[test]
fn reads_one_line_as_it_is_and_no_lines_as_nothing() {
    assert_eq!(recognized_text(&vec!["Orbit".to_owned()]), "Orbit");
    assert_eq!(recognized_text(&Vec::new()), "");
    assert_eq!(recognized_text(&vec![String::new(), String::new()]), "\n");
}
