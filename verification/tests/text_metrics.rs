use term_gui::compute_text_height;

#[test]
fn empty_text_has_zero_height_at_any_width() {
    assert_eq!(compute_text_height("", 1), 0);
    assert_eq!(compute_text_height("", 10), 0);
    assert_eq!(compute_text_height("", 65535), 0);
}

#[test]
fn single_word_that_fits_is_one_line() {
    assert_eq!(compute_text_height("hello", 10), 1);
    assert_eq!(compute_text_height("hello", 5), 1);
}

#[test]
fn whitespace_only_text_is_one_line() {
    assert_eq!(compute_text_height("   ", 10), 1);
    assert_eq!(compute_text_height("\t\n", 4), 1);
    assert_eq!(compute_text_height("\u{000C}\u{00A0}\u{2003}", 4), 1);
}

#[test]
fn every_whitespace_kind_separates_words() {
    // The separator set is str::split_whitespace's: form feed, vertical
    // tab, next line, no-break space, the typographic spaces, the line
    // and paragraph separators and the ideographic space all end a word
    // just as a plain space does.
    let expected = compute_text_height("aa b c", 3);
    assert_eq!(compute_text_height("aa\u{000C}b c", 3), expected);
    assert_eq!(compute_text_height("aa\u{000B}b\u{0085}c", 3), expected);
    assert_eq!(compute_text_height("aa\u{00A0}b\u{1680}c", 3), expected);
    assert_eq!(compute_text_height("aa\u{2003}b\u{200A}c", 3), expected);
    assert_eq!(compute_text_height("aa\u{2028}b\u{2029}c", 3), expected);
    assert_eq!(compute_text_height("aa\u{202F}b\u{205F}c", 3), expected);
    assert_eq!(compute_text_height("aa\u{3000}b\u{3000}c", 3), expected);
    // "aa"(2): fits, cursor 3; "b"(1): 3 + 1 > 3 wraps, cursor 2;
    // "c"(1): 2 + 1 <= 3 stays — two lines.
    assert_eq!(expected, 2);
}

#[test]
fn non_whitespace_controls_stay_inside_words() {
    // A zero-width space is not Unicode whitespace, so it does not end
    // a word: the text is a single three-character word that overflows
    // width 2 onto a fresh line.
    assert_eq!(compute_text_height("a\u{200B}b", 2), 2);
    assert_eq!(compute_text_height("a\u{200B}b", 3), 1);
}

#[test]
fn word_longer_than_width_overflows_onto_a_fresh_line() {
    // The cursor-advance rule wraps before placing any word that would
    // cross the width, even the first one, so a single overlong word
    // lands on line one and the count is two.
    assert_eq!(compute_text_height("aaaaaaaaaa", 5), 2);
}

#[test]
fn wrap_at_exact_boundary() {
    // "aaaaa"(5): cursor 0 -> placed, cursor 6. "bbbbb"(5): 6 + 5 > 10,
    // wrap to line 1, cursor 6. "ccccc"(5): 6 + 5 > 10, wrap to line 2.
    assert_eq!(compute_text_height("aaaaa bbbbb ccccc", 10), 3);
}

#[test]
fn two_words_with_trailing_space_rule() {
    // "hi"(2): placed at column 0, cursor 3. "there"(5): 3 + 5 > 6, so
    // it wraps: two lines at width 6, one line at width 8.
    assert_eq!(compute_text_height("hi there", 6), 2);
    assert_eq!(compute_text_height("hi there", 8), 1);
}

#[test]
fn height_is_monotonically_non_increasing_in_width() {
    let text = "the quick brown fox jumps over the lazy dog";
    let mut previous = compute_text_height(text, 5);
    for width in 6..50u16 {
        let here = compute_text_height(text, width);
        assert!(here <= previous);
        previous = here;
    }
}

#[test]
fn width_zero_on_empty_text_is_zero() {
    assert_eq!(compute_text_height("", 0), 0);
}
