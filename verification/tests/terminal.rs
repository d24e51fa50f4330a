use vai::action::{Direction, Scope};
use vai::buffer::{self, Buffer};
use vai::context::{self, Context};
use vai::session;
use vai::terminal::{self, clip_prompt, Color, Command};

fn typed_frame(text: &str) -> Buffer {
    let mut buffer = buffer::new();
    buffer.write_str(text);
    buffer
}

fn names(list: &[&str]) -> Vec<String> {
    list.iter().map(|name| name.to_string()).collect()
}

fn plain(text: &str) -> Context {
    context::new(typed_frame(text), Vec::new())
}

fn print(text: &str) -> Command {
    Command::Print(String::from(text))
}

#[test]
fn clip_prompt_keeps_short_labels() {
    assert_eq!(clip_prompt("g"), (String::from("g"), 2));
    assert_eq!(clip_prompt(""), (String::new(), 1));
    let label = "a".repeat(32);
    assert_eq!(clip_prompt(&label), (label.clone(), 33));
}

#[test]
fn clip_prompt_cuts_long_labels() {
    let label = "é".repeat(40);
    assert_eq!(clip_prompt(&label), ("é".repeat(32), 33));
}

#[test]
fn set_prompt_paints_the_primary_label() {
    let mut terminal = terminal::new();
    assert_eq!(
        terminal.set_prompt(&None),
        vec![
            Command::MoveToColumn(0),
            Command::ClearCurrentLine,
            Command::SetForegroundColor(Color::DarkGreen),
            print("vai"),
            Command::ResetColor,
            print("> "),
        ]
    );
    assert_eq!(
        terminal.print(&plain(""), 80),
        vec![
            Command::MoveToColumn(5),
            Command::ResetColor,
            print(""),
            Command::ClearUntilNewLine,
            Command::MoveToColumn(5),
            Command::Flush,
        ]
    );
}

#[test]
fn set_prompt_paints_the_secondary_label() {
    let mut terminal = terminal::new();
    assert_eq!(
        terminal.set_prompt(&Some("duck")),
        vec![
            Command::MoveToColumn(0),
            Command::ClearCurrentLine,
            Command::SetForegroundColor(Color::DarkGreen),
            print("vai"),
            Command::ResetColor,
            print("|"),
            Command::SetForegroundColor(Color::Green),
            print("duck"),
            Command::ResetColor,
            print("> "),
        ]
    );
    assert_eq!(
        terminal.print(&plain("ab"), 80),
        vec![
            Command::MoveToColumn(10),
            Command::ResetColor,
            print("ab"),
            Command::ClearUntilNewLine,
            Command::MoveToColumn(12),
            Command::Flush,
        ]
    );
    let _ = terminal.set_prompt(&None);
    assert_eq!(terminal.print(&plain("ab"), 80)[0], Command::MoveToColumn(5));
}

#[test]
fn print_paints_the_text_and_the_suggestion() {
    let mut terminal = terminal::new();
    let context = context::new(typed_frame("g"), names(&["google"]));
    assert_eq!(
        terminal.print(&context, 80),
        vec![
            Command::MoveToColumn(5),
            Command::ResetColor,
            print("g"),
            Command::SetForegroundColor(Color::Blue),
            print("oogle"),
            Command::ResetColor,
            Command::ClearUntilNewLine,
            Command::MoveToColumn(6),
            Command::Flush,
        ]
    );
}

#[test]
fn print_clips_the_suggestion() {
    let mut terminal = terminal::new();
    let context = context::new(typed_frame("g"), names(&["google"]));
    let commands = terminal.print(&context, 10);
    assert_eq!(commands[2], print("g"));
    assert_eq!(commands[4], print("oogl"));
    let commands = terminal.print(&context, 7);
    assert_eq!(commands[4], print("o"));
    let commands = terminal.print(&context, 6);
    assert_eq!(
        commands,
        vec![
            Command::MoveToColumn(5),
            Command::ResetColor,
            print("g"),
            Command::ClearUntilNewLine,
            Command::MoveToColumn(6),
            Command::Flush,
        ]
    );
}

#[test]
fn print_puts_the_cursor_where_it_is_in_the_text() {
    let mut terminal = terminal::new();
    let mut context = plain("hello world");
    context.move_cursor(&Scope::BackWord);
    let commands = terminal.print(&context, 80);
    assert_eq!(commands[2], print("hello world"));
    assert_eq!(commands[commands.len() - 2], Command::MoveToColumn(11));
}

#[test]
fn print_slides_the_window_with_the_cursor() {
    let mut terminal = terminal::new();
    let mut context = plain("abcdefgh");
    let commands = terminal.print(&context, 10);
    assert_eq!(commands[2], print("defgh"));
    assert_eq!(commands[commands.len() - 2], Command::MoveToColumn(10));

    context.move_cursor(&Scope::Back);
    context.move_cursor(&Scope::Back);
    let commands = terminal.print(&context, 10);
    assert_eq!(commands[2], print("bcdef"));
    assert_eq!(commands[commands.len() - 2], Command::MoveToColumn(10));

    context.move_cursor(&Scope::BackAll);
    context.move_cursor(&Scope::Forward);
    context.move_cursor(&Scope::Forward);
    let commands = terminal.print(&context, 10);
    assert_eq!(commands[2], print("abcde"));
    assert_eq!(commands[commands.len() - 2], Command::MoveToColumn(7));
}

#[test]
fn print_fills_the_width_with_a_text_of_that_length() {
    let mut terminal = terminal::new();
    let commands = terminal.print(&plain("abcde"), 10);
    assert_eq!(commands[2], print("abcde"));
    assert_eq!(commands[commands.len() - 2], Command::MoveToColumn(10));
    let commands = terminal.print(&plain("abcd"), 10);
    assert_eq!(commands[2], print("abcd"));
    assert_eq!(commands[commands.len() - 2], Command::MoveToColumn(9));
}

#[test]
fn print_on_a_terminal_narrower_than_the_prompt() {
    let mut terminal = terminal::new();
    for columns in [0, 3, 5] {
        assert_eq!(
            terminal.print(&plain("abc"), columns),
            vec![
                Command::MoveToColumn(5),
                Command::ResetColor,
                print(""),
                Command::ClearUntilNewLine,
                Command::MoveToColumn(5),
                Command::Flush,
            ]
        );
    }
}

#[test]
fn print_paints_the_candidates_and_clears_them() {
    let mut terminal = terminal::new();
    let mut context = plain("x");
    context.complete(&Direction::Down, || names(&["one", "two"]));
    context.complete(&Direction::Down, Vec::new);
    context.complete(&Direction::Down, Vec::new);
    assert_eq!(
        terminal.print(&context, 80),
        vec![
            Command::MoveToColumn(5),
            Command::ResetColor,
            print("two"),
            Command::ClearUntilNewLine,
            Command::NewLine,
            Command::MoveToColumn(0),
            Command::ClearCurrentLine,
            print("one"),
            Command::NewLine,
            Command::MoveToColumn(0),
            Command::ClearCurrentLine,
            Command::SetBold,
            print("two"),
            Command::ResetColor,
            Command::MoveUp(2),
            Command::MoveToColumn(8),
            Command::MoveToColumn(8),
            Command::Flush,
        ]
    );
    context.move_cursor(&Scope::Back);
    let commands = terminal.print(&context, 80);
    assert_eq!(
        commands[4..10],
        [
            Command::MoveDown(1),
            Command::ClearCurrentLine,
            Command::MoveDown(1),
            Command::ClearCurrentLine,
            Command::MoveUp(2),
            Command::MoveToColumn(7),
        ]
    );
    assert_eq!(commands[10], Command::NewLine);
    assert_eq!(commands.len(), 24);

    let commands = terminal.print(&plain("x"), 80);
    assert_eq!(
        commands,
        vec![
            Command::MoveToColumn(5),
            Command::ResetColor,
            print("x"),
            Command::ClearUntilNewLine,
            Command::MoveDown(1),
            Command::ClearCurrentLine,
            Command::MoveDown(1),
            Command::ClearCurrentLine,
            Command::MoveUp(2),
            Command::MoveToColumn(6),
            Command::MoveToColumn(6),
            Command::Flush,
        ]
    );
    assert_eq!(terminal.print(&plain("x"), 80).len(), 6);
}

#[test]
fn print_with_an_empty_list_moves_nowhere() {
    let mut terminal = terminal::new();
    let mut context = plain("x");
    context.complete(&Direction::Down, Vec::new);
    assert_eq!(
        terminal.print(&context, 80),
        vec![
            Command::MoveToColumn(5),
            Command::ResetColor,
            print("x"),
            Command::ClearUntilNewLine,
            Command::MoveToColumn(6),
            Command::MoveToColumn(6),
            Command::Flush,
        ]
    );
}

#[test]
fn print_error_shows_the_message_below_and_the_next_frame_clears_it() {
    let mut terminal = terminal::new();
    let _ = terminal.print(&plain("go "), 80);
    assert_eq!(
        terminal.print_error("Invalid target"),
        vec![
            Command::NewLine,
            Command::MoveToColumn(0),
            Command::ClearCurrentLine,
            Command::SetForegroundColor(Color::Red),
            print("Error: "),
            Command::ResetColor,
            print("Invalid target"),
            Command::MoveUp(1),
            Command::MoveToColumn(8),
            Command::Flush,
        ]
    );
    assert_eq!(
        terminal.print(&plain("go"), 80),
        vec![
            Command::MoveToColumn(5),
            Command::ResetColor,
            print("go"),
            Command::ClearUntilNewLine,
            Command::MoveDown(1),
            Command::ClearCurrentLine,
            Command::MoveUp(1),
            Command::MoveToColumn(7),
            Command::MoveToColumn(7),
            Command::Flush,
        ]
    );
    assert_eq!(terminal.print(&plain("go"), 80).len(), 6);
}

#[test]
fn print_error_clears_the_candidates_first() {
    let mut terminal = terminal::new();
    let mut context = plain("x");
    context.complete(&Direction::Down, || names(&["one"]));
    let _ = terminal.print(&context, 80);
    let commands = terminal.print_error("no");
    assert_eq!(
        commands[..4],
        [
            Command::MoveDown(1),
            Command::ClearCurrentLine,
            Command::MoveUp(1),
            Command::MoveToColumn(6),
        ]
    );
    assert_eq!(commands[4], Command::NewLine);
    assert_eq!(commands.len(), 14);
}

#[test]
fn render_paints_the_prompt_of_the_mode_and_the_frame() {
    let mut terminal = terminal::new();
    let session = session::compose(String::from("g"), typed_frame("ab"), Vec::new());
    assert_eq!(
        terminal.render(&session, 80),
        vec![
            Command::MoveToColumn(0),
            Command::ClearCurrentLine,
            Command::SetForegroundColor(Color::DarkGreen),
            print("vai"),
            Command::ResetColor,
            print("|"),
            Command::SetForegroundColor(Color::Green),
            print("g"),
            Command::ResetColor,
            print("> "),
            Command::MoveToColumn(7),
            Command::ResetColor,
            print("ab"),
            Command::ClearUntilNewLine,
            Command::MoveToColumn(9),
            Command::Flush,
        ]
    );
    let executors = vai::executors::Executors::new(Vec::new());
    let session = session.cancel(&executors);
    let commands = terminal.render(&session, 80);
    assert_eq!(commands[5], print("> "));
    assert_eq!(commands[6], Command::MoveToColumn(5));
    assert_eq!(commands[8], print("g ab"));
    assert_eq!(commands[commands.len() - 2], Command::MoveToColumn(7));
}

struct Shown {
    rows: Vec<String>,
    row: usize,
    column: usize,
}

fn carry_out(shown: &mut Shown, commands: Vec<Command>) {
    for command in commands {
        while shown.rows.len() <= shown.row + 1 {
            shown.rows.push(String::new());
        }
        match command {
            Command::MoveToColumn(column) => shown.column = usize::from(column),
            Command::MoveUp(lines) => shown.row -= usize::from(lines),
            Command::MoveDown(lines) => shown.row += usize::from(lines),
            Command::NewLine => shown.row += 1,
            Command::ClearCurrentLine => shown.rows[shown.row].clear(),
            Command::ClearUntilNewLine => {
                let kept: String = shown.rows[shown.row].chars().take(shown.column).collect();
                shown.rows[shown.row] = kept;
            },
            Command::Print(text) => {
                let mut line: Vec<char> = shown.rows[shown.row].chars().collect();
                while line.len() < shown.column {
                    line.push(' ');
                }
                for c in text.chars() {
                    if shown.column < line.len() {
                        line[shown.column] = c;
                    } else {
                        line.push(c);
                    }
                    shown.column += 1;
                }
                shown.rows[shown.row] = line.into_iter().collect();
            },
            Command::SetForegroundColor(_) | Command::SetBold | Command::ResetColor | Command::Flush => {},
        }
    }
}

fn lines_of(shown: &Shown) -> Vec<&str> {
    let mut lines: Vec<&str> = shown.rows.iter().map(String::as_str).collect();
    while lines.last() == Some(&"") {
        lines.pop();
    }
    lines
}

#[test]
fn frames_leave_no_stale_text_on_the_screen() {
    let executors = vai::executors::Executors::new(Vec::new());
    let mut shown = Shown { rows: vec![String::from("$ old line of the shell")], row: 0, column: 7 };
    let mut terminal = terminal::new();

    let mut session = session::compose(String::from("duck"), typed_frame(""), names(&["rust verus"]));
    carry_out(&mut shown, terminal.render(&session, 40));
    assert_eq!(lines_of(&shown), vec!["vai|duck> "]);
    assert_eq!((shown.row, shown.column), (0, 10));

    for c in "ru".chars() {
        session = session.step(&vai::action::Action::Edit(vai::action::EditAction::Write(c)), &executors, Vec::new).0;
    }
    carry_out(&mut shown, terminal.render(&session, 40));
    assert_eq!(lines_of(&shown), vec!["vai|duck> rust verus"]);
    assert_eq!((shown.row, shown.column), (0, 12));

    let complete = vai::action::Action::Complete(Direction::Down);
    session = session.step(&complete, &executors, || names(&["ruby on rails", "rust", "run"])).0;
    carry_out(&mut shown, terminal.render(&session, 40));
    assert_eq!(lines_of(&shown), vec!["vai|duck> rust verus", "ruby on rails", "rust", "run"]);
    assert_eq!((shown.row, shown.column), (0, 12));

    session = session.step(&complete, &executors, Vec::new).0;
    session = session.step(&complete, &executors, Vec::new).0;
    carry_out(&mut shown, terminal.render(&session, 40));
    assert_eq!(lines_of(&shown), vec!["vai|duck> rust verus", "ruby on rails", "rust", "run"]);
    assert_eq!((shown.row, shown.column), (0, 14));

    carry_out(&mut shown, terminal.print_error("Could not open query"));
    assert_eq!(lines_of(&shown), vec!["vai|duck> rust verus", "Error: Could not open query"]);
    assert_eq!((shown.row, shown.column), (0, 14));

    session = session.step(&vai::action::Action::Edit(vai::action::EditAction::Delete(Scope::Back)), &executors, Vec::new).0;
    carry_out(&mut shown, terminal.render(&session, 40));
    assert_eq!(lines_of(&shown), vec!["vai|duck> rust verus"]);
    assert_eq!((shown.row, shown.column), (0, 13));

    session = session.cancel(&executors);
    carry_out(&mut shown, terminal.render(&session, 40));
    assert_eq!(lines_of(&shown), vec!["vai> duck rus"]);
    assert_eq!((shown.row, shown.column), (0, 10));

    carry_out(&mut shown, terminal.render(&session, 12));
    assert_eq!(lines_of(&shown), vec!["vai> duck ru"]);
    assert_eq!((shown.row, shown.column), (0, 10));
}
