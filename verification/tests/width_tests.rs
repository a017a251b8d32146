use promptkit::width::decolored;
use promptkit::width::visible_width;

#[test]
fn plain_string_full_grapheme_count() {
    assert_eq!(visible_width("HELLO"), 5);
    assert_eq!(visible_width(""), 0);
}

#[test]
fn combining_marks_count_as_one_cluster() {
    // four chars, two grapheme clusters: each mark attaches to its base
    assert_eq!(visible_width("a\u{310}e\u{301}"), 2);
}

#[test]
fn colored_string_counts_only_visible() {
    assert_eq!(visible_width("\x1B[31mHELLO\x1B[0m"), 5);
    assert_eq!(decolored("\x1B[31mHELLO\x1B[0m"), "HELLO");
}

#[test]
fn dangling_introducer_kept_verbatim() {
    assert_eq!(decolored("AB\x1B"), "AB\x1B");
    // the dangling escape byte is a grapheme cluster of its own
    assert_eq!(visible_width("AB\x1B"), 3);
}

#[test]
fn unterminated_after_terminated_sequences() {
    assert_eq!(decolored("x\x1B[31my\x1B"), "xy\x1B");
}

#[test]
fn literal_m_outside_escape_is_kept() {
    assert_eq!(decolored("me\x1B[0mow"), "meow");
}

#[test]
fn escape_only_string_is_empty() {
    assert_eq!(decolored("\x1B[1m\x1B[31m"), "");
    assert_eq!(visible_width("\x1B[1m\x1B[31m"), 0);
}
