use textframe::text::{chars_of, push_repeated, string_of};

#[test]
fn chars_of_keeps_every_character_in_order() {
    assert_eq!(chars_of(""), Vec::<char>::new());
    assert_eq!(chars_of("abc"), vec!['a', 'b', 'c']);
    assert_eq!(chars_of("a▓é\n"), vec!['a', '▓', 'é', '\n']);
}

#[test]
fn string_of_takes_the_range() {
    let chars = vec!['h', 'e', 'l', 'l', 'o'];
    assert_eq!(string_of(&chars, 0, 5), "hello");
    assert_eq!(string_of(&chars, 1, 3), "el");
    assert_eq!(string_of(&chars, 2, 2), "");
    assert_eq!(string_of(&chars, 5, 5), "");
}

#[test]
fn string_of_counts_characters_not_bytes() {
    let chars = chars_of("▓▓é▓");
    assert_eq!(string_of(&chars, 1, 3), "▓é");
}

#[test]
fn push_repeated_appends_to_what_is_there() {
    let mut s = String::from("ab");
    push_repeated(&mut s, '#', 3);
    assert_eq!(s, "ab###");
    push_repeated(&mut s, ' ', 0);
    assert_eq!(s, "ab###");
    push_repeated(&mut s, '▓', 2);
    assert_eq!(s, "ab###▓▓");
}

#[test]
fn push_repeated_on_an_empty_string() {
    let mut s = String::new();
    push_repeated(&mut s, 'x', 4);
    assert_eq!(s, "xxxx");
}
