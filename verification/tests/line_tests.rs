use termedit::line::{byte_len, Line};

#[test]
fn from_keeps_the_text() {
    let line = Line::from("hello");
    assert_eq!(line.string, "hello");
    assert_eq!(line.len(), 5);
}

#[test]
fn len_counts_bytes() {
    assert_eq!(Line::from("").len(), 0);
    assert_eq!(Line::from("a\u{e9}").len(), 3);
    assert_eq!(byte_len("\u{20ac}"), 3);
}

#[test]
fn get_cuts_out_a_byte_range() {
    let line = Line::from("hello world");
    assert_eq!(line.get(0..5), "hello");
    assert_eq!(line.get(6..11), "world");
    assert_eq!(line.get(3..3), "");
}

#[test]
fn get_clamps_the_end_to_the_length() {
    let line = Line::from("hello");
    assert_eq!(line.get(2..100), "llo");
    assert_eq!(line.get(0..usize::MAX), "hello");
    assert_eq!(line.get(5..9), "");
}

#[test]
fn get_gives_nothing_for_a_reversed_range() {
    let line = Line::from("hello");
    assert_eq!(line.get(4..2), "");
    assert_eq!(line.get(6..9), "");
}

#[test]
fn get_gives_nothing_inside_a_character() {
    let line = Line::from("a\u{e9}b");
    assert_eq!(line.get(0..2), "");
    assert_eq!(line.get(2..4), "");
    assert_eq!(line.get(1..3), "\u{e9}");
    assert_eq!(line.get(0..3), "a\u{e9}");
}
