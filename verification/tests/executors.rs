use vai::executors::{Executor, Executors};
use vai::parser::Parser;

fn executor(name: &str, alias: &str) -> Executor {
    Executor::new(
        String::from(name),
        String::from(alias),
        format!("https://{}.example/search?q=", name),
        format!("https://{}.example/complete?q=", name),
        Parser::Google,
    )
}

fn all() -> Executors {
    Executors::new(vec![
        executor("google", "g"),
        executor("duck", "d"),
        executor("g", "first"),
        executor("other", "d"),
    ])
}

#[test]
fn getters_return_the_configuration() {
    let executor = Executor::new(
        String::from("name"),
        String::from("alias"),
        String::from("command"),
        String::from("suggestion"),
        Parser::Duck,
    );
    assert_eq!(executor.name(), "name");
    assert_eq!(executor.alias(), "alias");
    assert_eq!(executor.command(), "command");
    assert_eq!(executor.suggestion(), "suggestion");
    assert_eq!(executor.parser(), Parser::Duck);
}

#[test]
fn list_targets_lists_the_names_in_order() {
    let executors = all();
    let names: Vec<String> = executors.list_targets().into_iter().cloned().collect();
    assert_eq!(names, vec!["google", "duck", "g", "other"]);
    assert!(Executors::new(Vec::new()).list_targets().is_empty());
    assert_eq!(executors.executors().len(), 4);
}

#[test]
fn find_prefers_names_to_aliases() {
    let executors = all();
    assert_eq!(executors.find("google").unwrap().name(), "google");
    assert_eq!(executors.find("g").unwrap().name(), "g");
    assert_eq!(executors.find("first").unwrap().name(), "g");
    assert_eq!(executors.find("d").unwrap().name(), "duck");
    assert!(executors.find("goo").is_none());
    assert!(executors.find("").is_none());
}

#[test]
fn find_ignores_the_case_of_what_is_asked() {
    let executors = all();
    assert_eq!(executors.find("GOOGLE").unwrap().name(), "google");
    assert_eq!(executors.find("Duck").unwrap().name(), "duck");
    assert_eq!(executors.find("FIRST").unwrap().name(), "g");
}

#[test]
fn find_exact_compares_as_given() {
    let executors = all();
    assert_eq!(executors.find_exact("google").unwrap().name(), "google");
    assert!(executors.find_exact("GOOGLE").is_none());
    let executors = Executors::new(vec![executor("Mixed", "")]);
    assert!(executors.find("Mixed").is_none());
    assert!(executors.find_exact("Mixed").is_some());
}

#[test]
fn find_matches_an_empty_alias() {
    let executors = Executors::new(vec![executor("a", "x"), executor("b", "")]);
    assert_eq!(executors.find("").unwrap().name(), "b");
}

#[test]
fn clean_up_name_lowers_name_and_alias() {
    let cleaned = Executor::new(
        String::from("GooGle"),
        String::from("G"),
        String::from("HTTP://Command"),
        String::from("HTTP://Suggest"),
        Parser::Google,
    )
    .clean_up_name();
    assert_eq!(cleaned.name(), "google");
    assert_eq!(cleaned.alias(), "g");
    assert_eq!(cleaned.command(), "HTTP://Command");
    assert_eq!(cleaned.suggestion(), "HTTP://Suggest");
    assert_eq!(cleaned.parser(), Parser::Google);
}

#[test]
fn cleaned_lowers_every_executor_in_order() {
    let executors = Executors::cleaned(vec![executor("One", "A"), executor("TWO", "b"), executor("three", "C")]);
    let names: Vec<String> = executors.list_targets().into_iter().cloned().collect();
    assert_eq!(names, vec!["one", "two", "three"]);
    assert_eq!(executors.find("a").unwrap().name(), "one");
    assert_eq!(executors.find("C").unwrap().name(), "three");
    assert_eq!(executors.executors()[1].command(), "https://TWO.example/search?q=");
}

#[test]
fn url_appends_the_query() {
    let executor = executor("duck", "d");
    assert_eq!(executor.url("rust verus"), "https://duck.example/search?q=rust verus");
    assert_eq!(executor.url(""), "https://duck.example/search?q=");
}

#[test]
fn history_file_is_named_after_the_executor() {
    assert_eq!(executor("duck", "d").history_file(), "history_duck");
}

#[test]
fn suggestion_url_needs_three_bytes() {
    let executor = executor("duck", "d");
    assert_eq!(executor.suggestion_url(""), None);
    assert_eq!(executor.suggestion_url("ab"), None);
    assert_eq!(
        executor.suggestion_url("abc"),
        Some(String::from("https://duck.example/complete?q=abc"))
    );
    assert_eq!(executor.suggestion_url("é"), None);
    assert_eq!(
        executor.suggestion_url("éa"),
        Some(String::from("https://duck.example/complete?q=éa"))
    );
    assert_eq!(
        executor.suggestion_url("越"),
        Some(String::from("https://duck.example/complete?q=越"))
    );
}

#[test]
fn suggestion_url_needs_a_service_and_a_parser() {
    let silent = Executor::new(
        String::from("a"),
        String::new(),
        String::from("c"),
        String::new(),
        Parser::Google,
    );
    assert_eq!(silent.suggestion_url("query"), None);
    let unread = Executor::new(
        String::from("a"),
        String::new(),
        String::from("c"),
        String::from("s"),
        Parser::Nothing,
    );
    assert_eq!(unread.suggestion_url("query"), None);
    let duck = Executor::new(
        String::from("a"),
        String::new(),
        String::from("c"),
        String::from("s?"),
        Parser::Duck,
    );
    assert_eq!(duck.suggestion_url("query"), Some(String::from("s?query")));
}
