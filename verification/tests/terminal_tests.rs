use textframe::terminal::{
    resolve_dimensions, terminal_dimensions, DEFAULT_HEIGHT, DEFAULT_WIDTH,
};

#[test]
fn default_size_is_eighty_by_twenty_four() {
    assert_eq!(DEFAULT_WIDTH, 80);
    assert_eq!(DEFAULT_HEIGHT, 24);
}

#[test]
fn a_detected_size_is_taken_as_it_is() {
    assert_eq!(resolve_dimensions(Some((132, 43))), (132, 43));
    assert_eq!(resolve_dimensions(Some((1, 1))), (1, 1));
    assert_eq!(resolve_dimensions(Some((0, 0))), (0, 0));
}

#[test]
fn without_a_detected_size_the_default_is_taken() {
    assert_eq!(resolve_dimensions(None), (80, 24));
}

#[test]
fn terminal_dimensions_follow_the_detection() {
    let detected = term_size::dimensions();
    assert_eq!(terminal_dimensions(), resolve_dimensions(detected));
}
