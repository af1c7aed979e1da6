use orbit_capture::names::{sanitize_filename, unique_path};

#[test]
fn keeps_safe_characters_and_replaces_the_rest() {
    assert_eq!(sanitize_filename("com.apple.Safari"), "com.apple.Safari");
    assert_eq!(sanitize_filename("my app/v2 ü"), "my_app_v2__");
}

#[test]
fn takes_the_plain_name_when_it_is_free() {
    assert_eq!(unique_path("Shot", "png", |_| false), Some("Shot.png".to_owned()));
}

#[test]
fn counts_up_from_two_until_a_name_is_free() {
    let taken = ["Shot.png", "Shot (2).png", "Shot (3).png"];
    assert_eq!(
        unique_path("Shot", "png", |name| taken.contains(&name)),
        Some("Shot (4).png".to_owned())
    );
}
