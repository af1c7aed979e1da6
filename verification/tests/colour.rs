use orbit_capture::colour::{parse_hex_colour, parse_mesh_colour, parse_mesh_colours};

#[test]
fn accepts_short_hex_background_colours() {
    assert_eq!(parse_hex_colour("#12").unwrap(), [18, 18, 18, 255]);
    assert_eq!(parse_hex_colour("#123").unwrap(), [17, 34, 51, 255]);
}

#[test]
fn reads_six_digit_background_colours_with_or_without_a_hash() {
    assert_eq!(parse_hex_colour("#112233").unwrap(), [17, 34, 51, 255]);
    assert_eq!(parse_hex_colour("aBcDeF").unwrap(), [171, 205, 239, 255]);
}

#[test]
fn refuses_background_colours_of_other_lengths_or_digits() {
    for text in ["#1", "#1234", "#12345g", "", "##123"] {
        assert_eq!(
            parse_hex_colour(text).unwrap_err(),
            "The screenshot background colour is not valid"
        );
    }
}

#[test]
fn mesh_colours_take_six_digits_only() {
    assert_eq!(parse_mesh_colour("#FF0000").unwrap(), [255, 0, 0, 255]);
    assert_eq!(
        parse_mesh_colour("#F00").unwrap_err(),
        "The screenshot mesh colour is not valid"
    );
}

#[test]
fn parses_every_mesh_colour_or_refuses_them_all() {
    let colours = vec!["#FF0000".to_owned(), "00ff00".to_owned(), "#0000FF".to_owned()];
    assert_eq!(
        parse_mesh_colours(&colours).unwrap(),
        vec![[255, 0, 0, 255], [0, 255, 0, 255], [0, 0, 255, 255]]
    );
    let broken = vec!["#FF0000".to_owned(), "#GG0000".to_owned()];
    assert_eq!(
        parse_mesh_colours(&broken).unwrap_err(),
        "The screenshot mesh colour is not valid"
    );
}
