use vai::navigation::{
    next_word, previous_word, previous_word_end, scan_back_at, scan_back_before, scan_forward,
};

fn chars(text: &str) -> Vec<char> {
    text.chars().collect()
}

#[test]
fn next_word_skips_the_word_and_the_space_behind_it() {
    let data = chars("foo  bar baz");
    assert_eq!(next_word(0, &data), 5);
    assert_eq!(next_word(2, &data), 5);
    assert_eq!(next_word(3, &data), 5);
    assert_eq!(next_word(5, &data), 9);
    assert_eq!(next_word(9, &data), 12);
}

#[test]
fn next_word_at_the_end_stays_there() {
    for text in ["", "a", "foo bar", "trail  "] {
        let data = chars(text);
        assert_eq!(next_word(data.len(), &data), data.len());
        assert_eq!(next_word(next_word(data.len(), &data), &data), data.len());
    }
}

#[test]
fn next_word_past_the_end_returns_the_position() {
    let data = chars("ab");
    assert_eq!(next_word(5, &data), 5);
}

#[test]
fn previous_word_goes_to_the_start_of_the_word_before() {
    let data = chars("foo  bar baz");
    assert_eq!(previous_word(12, &data), 9);
    assert_eq!(previous_word(9, &data), 5);
    assert_eq!(previous_word(7, &data), 5);
    assert_eq!(previous_word(5, &data), 0);
    assert_eq!(previous_word(4, &data), 0);
    assert_eq!(previous_word(1, &data), 0);
    assert_eq!(previous_word(0, &data), 0);
}

#[test]
fn previous_word_end_goes_to_the_end_of_the_word_before() {
    let data = chars("ab cd");
    assert_eq!(previous_word_end(5, &data), 2);
    assert_eq!(previous_word_end(3, &data), 2);
    assert_eq!(previous_word_end(2, &data), 0);
    assert_eq!(previous_word_end(0, &data), 0);
    let data = chars("foo   bar");
    assert_eq!(previous_word_end(9, &data), 3);
    assert_eq!(previous_word_end(6, &data), 3);
    assert_eq!(previous_word_end(3, &data), 0);
}

#[test]
fn previous_word_does_not_undo_next_word() {
    let data = chars("ab");
    assert_eq!(next_word(1, &data), 2);
    assert_eq!(previous_word(2, &data), 0);
    let data = chars("foo bar");
    assert_eq!(previous_word(next_word(0, &data), &data), 0);
    assert_eq!(previous_word(next_word(5, &data), &data), 4);
}

#[test]
fn words_end_at_any_unicode_whitespace() {
    let data = chars("a\tb\u{a0}c\u{3000}d");
    assert_eq!(next_word(0, &data), 2);
    assert_eq!(next_word(2, &data), 4);
    assert_eq!(next_word(4, &data), 6);
    assert_eq!(previous_word(6, &data), 4);
}

#[test]
fn scans_stop_where_the_run_ends() {
    let data = chars("  ab  ");
    assert_eq!(scan_forward(&data, 0, true), 2);
    assert_eq!(scan_forward(&data, 0, false), 0);
    assert_eq!(scan_forward(&data, 2, false), 4);
    assert_eq!(scan_forward(&data, 4, true), 6);
    assert_eq!(scan_back_before(&data, 6, true), 4);
    assert_eq!(scan_back_before(&data, 4, false), 2);
    assert_eq!(scan_back_before(&data, 2, true), 0);
    assert_eq!(scan_back_at(&data, 5, true), 3);
    assert_eq!(scan_back_at(&data, 3, false), 1);
    assert_eq!(scan_back_at(&data, 1, true), 0);
}
