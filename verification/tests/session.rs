use vai::action::{Action, Direction, EditAction, Scope};
use vai::buffer::{self, Buffer};
use vai::executors::{Executor, Executors};
use vai::parser::Parser;
use vai::session::{self, Mode, Outcome, Session};

fn typed_query(text: &str) -> Buffer {
    let mut buffer = buffer::new();
    buffer.write_str(text);
    buffer
}

fn names(list: &[&str]) -> Vec<String> {
    list.iter().map(|name| name.to_string()).collect()
}

fn target(name: &str, alias: &str) -> Executor {
    Executor::new(
        String::from(name),
        String::from(alias),
        format!("https://{}.example/?q=", name),
        String::new(),
        Parser::Nothing,
    )
}

fn targets(list: &[&str]) -> Executors {
    Executors::new(list.iter().map(|name| target(name, "")).collect())
}

fn act(session: Session, action: Action, executors: &Executors) -> (Session, Outcome) {
    session.step(&action, executors, Vec::new)
}

fn type_in(mut session: Session, text: &str, executors: &Executors) -> Session {
    for c in text.chars() {
        let (next, outcome) = act(session, Action::Edit(EditAction::Write(c)), executors);
        assert!(matches!(outcome, Outcome::Continue));
        session = next;
    }
    session
}

fn is_selecting(session: &Session) -> bool {
    matches!(session.mode(), Mode::SelectingTarget)
}

fn composing_for(session: &Session) -> Option<String> {
    match session.mode() {
        Mode::ComposingQuery(target) => Some(target.clone()),
        Mode::SelectingTarget => None,
    }
}

#[test]
fn execute_without_a_completed_word_does_nothing() {
    let executors = targets(&["google", "gopher"]);
    let session = session::select(buffer::new(), &executors);
    let (session, outcome) = act(session, Action::Execute, &executors);
    assert!(matches!(outcome, Outcome::Continue));
    let session = type_in(session, "go", &executors);
    assert_eq!(session.context().suggester().data(), "ogle");
    let (session, outcome) = act(session, Action::Execute, &executors);
    assert!(matches!(outcome, Outcome::Continue));
    assert!(is_selecting(&session));
    assert_eq!(session.context().buffer().data(), "go");
}

#[test]
fn execute_with_an_unknown_target_reports_it() {
    let executors = targets(&["google", "gopher"]);
    let session = session::select(buffer::new(), &executors);
    let session = type_in(session, "go ", &executors);
    let (session, outcome) = act(session, Action::Execute, &executors);
    assert!(matches!(outcome, Outcome::InvalidTarget));
    assert!(is_selecting(&session));
    assert_eq!(session.context().buffer().data(), "go ");
    assert_eq!(*session.context().buffer().position(), 3);
}

#[test]
fn execute_with_a_target_enters_its_mode() {
    let executors = targets(&["g"]);
    let session = session::select(typed_query("g query text"), &executors);
    let (session, outcome) = act(session, Action::Execute, &executors);
    assert_eq!(session.context().buffer().data(), "g query text");
    match outcome {
        Outcome::Select(target, buffer) => {
            assert_eq!(target, "g");
            assert_eq!(buffer.data(), "query text");
            assert!(buffer.at_end());
            let session = session::compose(target, buffer, names(&["query texts of old"]));
            assert_eq!(composing_for(&session), Some(String::from("g")));
            assert_eq!(session.context().buffer().data(), "query text");
            assert!(session.context().buffer().at_end());
            assert_eq!(session.context().suggester().data(), "");
        },
        other => panic!("{:?}", other),
    }
}

#[test]
fn execute_finds_targets_by_alias_and_in_any_case() {
    let executors = Executors::new(vec![target("google", "g"), target("duck", "d")]);
    let session = session::select(typed_query("D rust"), &executors);
    match session.execute(&executors) {
        Outcome::Select(target, buffer) => {
            assert_eq!(target, "D");
            assert_eq!(buffer.data(), "rust");
        },
        other => panic!("{:?}", other),
    }
    let session = session::select(typed_query("GOOGLE rust"), &executors);
    assert!(matches!(session.execute(&executors), Outcome::Select(_, _)));
    let session = session::select(typed_query("goo rust"), &executors);
    assert!(matches!(session.execute(&executors), Outcome::InvalidTarget));
}

#[test]
fn execute_while_composing_dispatches_the_text() {
    let executors = targets(&["g"]);
    let session = session::compose(String::from("g"), typed_query("how to verify"), Vec::new());
    let (session, outcome) = act(session, Action::Execute, &executors);
    match outcome {
        Outcome::Dispatch(query) => assert_eq!(query, "how to verify"),
        other => panic!("{:?}", other),
    }
    assert_eq!(composing_for(&session), Some(String::from("g")));
    assert_eq!(session.context().buffer().data(), "how to verify");
}

#[test]
fn cancel_while_composing_goes_back_to_selecting() {
    let executors = targets(&["g", "gopher"]);
    let session = session::compose(String::from("g"), typed_query("abc"), Vec::new());
    let (session, outcome) = act(session, Action::Cancel, &executors);
    assert!(matches!(outcome, Outcome::Continue));
    assert!(is_selecting(&session));
    assert_eq!(session.context().buffer().data(), "g abc");
    assert_eq!(*session.context().buffer().position(), 2);
    assert!(session.context().completions().is_none());
}

#[test]
fn cancel_while_selecting_does_nothing() {
    let executors = targets(&["g"]);
    let session = session::select(typed_query("g ab"), &executors);
    let (session, outcome) = act(session, Action::Cancel, &executors);
    assert!(matches!(outcome, Outcome::Continue));
    assert!(is_selecting(&session));
    assert_eq!(session.context().buffer().data(), "g ab");
    assert_eq!(*session.context().buffer().position(), 4);
}

#[test]
fn cancel_then_execute_comes_back() {
    let executors = targets(&["g"]);
    let session = session::compose(String::from("g"), typed_query("abc"), Vec::new());
    let (session, _) = act(session, Action::Cancel, &executors);
    match session.execute(&executors) {
        Outcome::Select(target, buffer) => {
            assert_eq!(target, "g");
            assert_eq!(buffer.data(), "abc");
            assert_eq!(*buffer.position(), 0);
        },
        other => panic!("{:?}", other),
    }
}

#[test]
fn exit_and_noop_change_nothing() {
    let executors = targets(&["g"]);
    let session = session::select(typed_query("g"), &executors);
    let (session, outcome) = act(session, Action::Noop, &executors);
    assert!(matches!(outcome, Outcome::Continue));
    let (session, outcome) = act(session, Action::Exit, &executors);
    assert!(matches!(outcome, Outcome::Exit));
    assert_eq!(session.context().buffer().data(), "g");
}

#[test]
fn selecting_suggests_the_names_of_the_targets() {
    let executors = targets(&["google", "gopher"]);
    let session = session::select(buffer::new(), &executors);
    let session = type_in(session, "gop", &executors);
    assert_eq!(session.context().suggester().data(), "her");
    let (session, _) = act(session, Action::MoveCursor(Scope::Forward), &executors);
    assert_eq!(session.context().buffer().data(), "gopher");
}

#[test]
fn composing_suggests_from_the_history() {
    let executors = targets(&["g"]);
    let session = session::compose(String::from("g"), buffer::new(), names(&["rust verus"]));
    let session = type_in(session, "ru", &executors);
    assert_eq!(session.context().suggester().data(), "st verus");
    let (session, _) = act(session, Action::MoveCursor(Scope::ForwardWord), &executors);
    assert_eq!(session.context().buffer().data(), "rust ");
}

#[test]
fn complete_while_selecting_offers_the_targets() {
    let executors = targets(&["google", "gopher"]);
    let session = session::select(buffer::new(), &executors);
    let (session, outcome) =
        session.step(&Action::Complete(Direction::Down), &executors, || names(&["never"]));
    assert!(matches!(outcome, Outcome::Continue));
    let list = session.context().completions().as_ref().unwrap();
    assert_eq!(list.data(), &names(&["google", "gopher"]));
    let (session, _) = act(session, Action::Complete(Direction::Up), &executors);
    assert_eq!(session.context().buffer().data(), "gopher");
    assert!(is_selecting(&session));
}

#[test]
fn complete_while_composing_asks_the_supplier() {
    let executors = targets(&["g"]);
    let session = session::compose(String::from("g"), typed_query("ru"), Vec::new());
    let (session, _) =
        session.step(&Action::Complete(Direction::Down), &executors, || names(&["rust", "ruby"]));
    let list = session.context().completions().as_ref().unwrap();
    assert_eq!(list.data(), &names(&["rust", "ruby"]));
    let (session, _) = act(session, Action::Complete(Direction::Down), &executors);
    assert_eq!(session.context().buffer().data(), "rust");
    assert_eq!(composing_for(&session), Some(String::from("g")));
}

#[test]
fn names_of_lists_the_names() {
    let executors = targets(&["a", "b"]);
    assert_eq!(session::names_of(&executors), names(&["a", "b"]));
    assert_eq!(session::names_of(&targets(&[])), Vec::<String>::new());
}
