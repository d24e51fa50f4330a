use vai::action::{EditAction, Scope};
use vai::buffer::{self, Buffer};
use vai::suggester::{self, Suggester};

fn typed_text(text: &str) -> Buffer {
    let mut buffer = buffer::new();
    buffer.write_str(text);
    buffer
}

fn names(list: &[&str]) -> Vec<String> {
    list.iter().map(|name| name.to_string()).collect()
}

fn engines() -> Suggester {
    suggester::new(names(&["google", "gopher", "duck"]))
}

#[test]
fn new_suggester_suggests_nothing() {
    let suggester = engines();
    assert_eq!(suggester.data(), "");
    assert!(suggester.data_raw().is_empty());
}

#[test]
fn update_takes_the_first_candidate_that_starts_with_the_word() {
    let mut suggester = engines();
    suggester.update(&typed_text("g"));
    assert_eq!(suggester.data(), "oogle");
    suggester.update(&typed_text("go"));
    assert_eq!(suggester.data(), "ogle");
    suggester.update(&typed_text("gop"));
    assert_eq!(suggester.data(), "her");
    suggester.update(&typed_text("duck"));
    assert_eq!(suggester.data(), "");
    suggester.update(&typed_text("d"));
    assert_eq!(suggester.data(), "uck");
}

#[test]
fn update_clears_where_no_candidate_starts_with_the_word() {
    let mut suggester = engines();
    suggester.update(&typed_text("g"));
    suggester.update(&typed_text("gx"));
    assert_eq!(suggester.data(), "");
}

#[test]
fn update_looks_at_the_last_word_only() {
    let mut suggester = engines();
    suggester.update(&typed_text("find on du"));
    assert_eq!(suggester.data(), "ck");
}

#[test]
fn update_compares_case() {
    let mut suggester = engines();
    suggester.update(&typed_text("G"));
    assert_eq!(suggester.data(), "");
}

#[test]
fn update_keeps_the_suggestion_for_an_empty_buffer() {
    let mut suggester = engines();
    suggester.update(&typed_text("g"));
    suggester.update(&buffer::new());
    assert_eq!(suggester.data(), "oogle");
}

#[test]
fn update_keeps_the_suggestion_while_the_cursor_is_not_at_the_end() {
    let mut suggester = engines();
    suggester.update(&typed_text("g"));
    let mut buffer = typed_text("du");
    buffer.move_cursor(&Scope::Back);
    suggester.update(&buffer);
    assert_eq!(suggester.data(), "oogle");
}

#[test]
fn update_keeps_the_suggestion_behind_whitespace() {
    let mut suggester = engines();
    suggester.update(&typed_text("g"));
    suggester.update(&typed_text("g "));
    assert_eq!(suggester.data(), "oogle");
}

#[test]
fn update_keeps_the_suggestion_for_a_text_of_the_same_length() {
    let mut suggester = engines();
    suggester.update(&typed_text("g"));
    suggester.update(&typed_text("d"));
    assert_eq!(suggester.data(), "oogle");
    let mut buffer = typed_text("g");
    buffer.edit(&EditAction::Delete(Scope::Back));
    suggester.update(&buffer);
    buffer.edit(&EditAction::Write('x'));
    suggester.update(&buffer);
    assert_eq!(suggester.data(), "oogle");
}

#[test]
fn take_empties_the_suggestion() {
    let mut suggester = engines();
    suggester.update(&typed_text("g"));
    assert_eq!(suggester.take(), "oogle");
    assert_eq!(suggester.data(), "");
    assert_eq!(suggester.take(), "");
}

#[test]
fn take_next_word_takes_up_to_the_next_word() {
    let mut suggester = suggester::new(names(&["new york city"]));
    suggester.update(&typed_text("n"));
    assert_eq!(suggester.data(), "ew york city");
    assert_eq!(suggester.take_next_word(), "ew ");
    assert_eq!(suggester.data(), "york city");
    assert_eq!(suggester.take_next_word(), "york ");
    assert_eq!(suggester.data(), "city");
    assert_eq!(suggester.take_next_word(), "city");
    assert_eq!(suggester.data(), "");
    assert_eq!(suggester.take_next_word(), "");
}

#[test]
fn suggestion_completes_a_candidate() {
    let candidates = names(&["alpha", "alpine", "beta", "al"]);
    for word in ["a", "al", "alp", "alpi", "b", "beta", "c", "alpha"] {
        let mut suggester = suggester::new(candidates.clone());
        suggester.update(&typed_text(word));
        let suggestion = suggester.data();
        let whole = format!("{}{}", word, suggestion);
        assert!(suggestion.is_empty() || candidates.contains(&whole));
        let first = candidates.iter().find(|candidate| candidate.starts_with(word));
        assert_eq!(first.map(|candidate| candidate[word.len()..].to_string()).unwrap_or_default(), suggestion);
    }
}
