use vai::text::{
    chars_of, copy_range, is_whitespace, join, push_str, same, starts_with, string_of, trim,
};

#[test]
fn is_whitespace_is_the_unicode_property() {
    for code in 0..=0x10FFFFu32 {
        if let Some(c) = char::from_u32(code) {
            assert_eq!(is_whitespace(c), c.is_whitespace(), "U+{:04X}", code);
        }
    }
}

#[test]
fn is_whitespace_on_some_characters() {
    assert!(is_whitespace(' '));
    assert!(is_whitespace('\n'));
    assert!(is_whitespace('\u{a0}'));
    assert!(!is_whitespace('a'));
    assert!(!is_whitespace('越'));
    assert!(!is_whitespace('\u{180e}'));
    assert!(!is_whitespace('\u{200b}'));
}

#[test]
fn chars_and_strings_convert_both_ways() {
    assert_eq!(chars_of("añ越"), vec!['a', 'ñ', '越']);
    assert_eq!(chars_of(""), Vec::<char>::new());
    let chars = vec!['h', 'e', 'l', 'l', 'o'];
    assert_eq!(string_of(&chars, 0, 5), "hello");
    assert_eq!(string_of(&chars, 1, 3), "el");
    assert_eq!(string_of(&chars, 2, 2), "");
}

#[test]
fn trim_is_the_trim_of_std() {
    let texts = [
        "", " ", "   ", "a", " a", "a ", "  a b  ", "\t\n x \r\n", "\u{3000}wide\u{a0}", "in side",
        "\u{200b}zero\u{200b}",
    ];
    for text in texts {
        assert_eq!(trim(text), text.trim());
    }
}

#[test]
fn same_compares_the_characters() {
    assert!(same("", ""));
    assert!(same("abc", "abc"));
    assert!(!same("abc", "abd"));
    assert!(!same("abc", "ab"));
}

#[test]
fn push_str_appends() {
    let mut text = String::from("ab");
    push_str(&mut text, "cd");
    push_str(&mut text, "");
    assert_eq!(text, "abcd");
}

#[test]
fn join_puts_the_separator_between() {
    let parts = vec![String::from("a"), String::from("b"), String::from(""), String::from("c")];
    assert_eq!(join(&parts, 0, " "), "a b  c");
    assert_eq!(join(&parts, 1, ", "), "b, , c");
    assert_eq!(join(&parts, 3, " "), "c");
    assert_eq!(join(&parts, 4, " "), "");
    assert_eq!(join(&Vec::new(), 0, " "), "");
}

#[test]
fn copy_range_copies_the_range() {
    let data = vec!['a', 'b', 'c', 'd'];
    assert_eq!(copy_range(&data, 1, 3), vec!['b', 'c']);
    assert_eq!(copy_range(&data, 2, 2), Vec::<char>::new());
    assert_eq!(copy_range(&data, 0, 4), data);
}

#[test]
fn starts_with_compares_a_range() {
    let data = vec!['x', 'g', 'o', 'y'];
    assert!(starts_with(&vec!['g', 'o', 'o'], &data, 1, 3));
    assert!(starts_with(&vec!['g', 'o'], &data, 1, 3));
    assert!(!starts_with(&vec!['g'], &data, 1, 3));
    assert!(!starts_with(&vec!['g', 'a'], &data, 1, 3));
    assert!(starts_with(&vec!['a'], &data, 2, 2));
    assert!(starts_with(&Vec::new(), &data, 0, 0));
}
