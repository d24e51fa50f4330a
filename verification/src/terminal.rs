//! What to paint on the terminal for a state of the prompt.
//!
//! The terminal itself is not touched here. Each function returns the
//! commands that bring the screen up to date, in the order in which they are
//! to be carried out, and keeps account of what the screen then shows below
//! the prompt line.

use crate::buffer::Line;
use crate::completions::{Completions, Selection};
use crate::context::{Context, Prompt};
use crate::session::{Mode, Session, Stage};
use crate::text::{chars_of, string_of};
use vstd::prelude::*;

verus! {

/// The columns that the primary label and the mark behind it take.
pub const BASE_PROMPT_SIZE: u16 = 5;

/// The number of characters of a secondary label that are shown.
pub const MAX_LABEL: usize = 32;

/// The colours that the prompt is painted in.
#[derive(Clone, Copy, Debug, PartialEq, Eq, Structural)]
pub enum Color {
    Red,
    Green,
    DarkGreen,
    Blue,
}

/// One command to the terminal. Columns count from 0.
#[derive(Debug, PartialEq, Eq)]
pub enum Command {
    MoveToColumn(u16),
    MoveUp(u16),
    MoveDown(u16),
    /// Go down one line, in the same column.
    NewLine,
    /// Clear the line that the cursor is in.
    ClearCurrentLine,
    /// Clear from the cursor to the end of its line.
    ClearUntilNewLine,
    SetForegroundColor(Color),
    SetBold,
    /// Back to the default colour and weight.
    ResetColor,
    Print(String),
    /// Send what was queued to the terminal.
    Flush,
}

/// What a command is: the same, with the text it prints as characters.
pub enum Paint {
    MoveToColumn(int),
    MoveUp(int),
    MoveDown(int),
    NewLine,
    ClearCurrentLine,
    ClearUntilNewLine,
    SetForegroundColor(Color),
    SetBold,
    ResetColor,
    Print(Seq<char>),
    Flush,
}

impl View for Command {
    type V = Paint;

    open spec fn view(&self) -> Paint {
        match self {
            Command::MoveToColumn(column) => Paint::MoveToColumn(*column as int),
            Command::MoveUp(lines) => Paint::MoveUp(*lines as int),
            Command::MoveDown(lines) => Paint::MoveDown(*lines as int),
            Command::NewLine => Paint::NewLine,
            Command::ClearCurrentLine => Paint::ClearCurrentLine,
            Command::ClearUntilNewLine => Paint::ClearUntilNewLine,
            Command::SetForegroundColor(color) => Paint::SetForegroundColor(*color),
            Command::SetBold => Paint::SetBold,
            Command::ResetColor => Paint::ResetColor,
            Command::Print(text) => Paint::Print(text@),
            Command::Flush => Paint::Flush,
        }
    }
}

/// What a list of commands is.
pub open spec fn paints(commands: Seq<Command>) -> Seq<Paint> {
    Seq::new(commands.len(), |i: int| commands[i]@)
}

/// The smaller of two numbers.
pub open spec fn least(a: int, b: int) -> int {
    if a < b {
        a
    } else {
        b
    }
}

/// The part of a secondary label that is shown: its first `MAX_LABEL`
/// characters.
pub open spec fn clipped(label: Seq<char>) -> Seq<char> {
    label.subrange(0, least(label.len() as int, MAX_LABEL as int))
}

/// The columns that the prompt takes: those of the primary label, and with
/// a secondary label one for the bar and one for each of its characters
/// that are shown.
pub open spec fn prompt_size(label: Option<Seq<char>>) -> int {
    match label {
        Some(label) => BASE_PROMPT_SIZE + clipped(label).len() + 1,
        None => BASE_PROMPT_SIZE as int,
    }
}

/// The commands that paint the prompt from the first column on.
pub open spec fn prompt_paints(label: Option<Seq<char>>) -> Seq<Paint> {
    let primary = seq![
        Paint::MoveToColumn(0),
        Paint::ClearCurrentLine,
        Paint::SetForegroundColor(Color::DarkGreen),
        Paint::Print("vai"@),
        Paint::ResetColor,
    ];
    let secondary = match label {
        Some(label) => seq![
            Paint::Print("|"@),
            Paint::SetForegroundColor(Color::Green),
            Paint::Print(clipped(label)),
            Paint::ResetColor,
        ],
        None => Seq::empty(),
    };
    primary + secondary + seq![Paint::Print("> "@)]
}

/// The commands that clear `lines` lines below the one of the cursor, going
/// down line by line.
pub open spec fn wipe_paints(lines: int) -> Seq<Paint>
    decreases lines,
{
    if lines <= 0 {
        Seq::empty()
    } else {
        wipe_paints(lines - 1) + seq![Paint::MoveDown(1), Paint::ClearCurrentLine]
    }
}

/// The commands that paint the first `count` of `candidates`, each on a line
/// of its own below the last, the selected one in bold.
pub open spec fn candidate_paints(list: Selection, count: int) -> Seq<Paint>
    decreases count,
{
    if count <= 0 {
        Seq::empty()
    } else {
        let line = seq![Paint::NewLine, Paint::MoveToColumn(0), Paint::ClearCurrentLine];
        let text = if list.selected == Some(count - 1) {
            seq![Paint::SetBold, Paint::Print(list.candidates[count - 1]), Paint::ResetColor]
        } else {
            seq![Paint::Print(list.candidates[count - 1])]
        };
        candidate_paints(list, count - 1) + line + text
    }
}

/// What the terminal shows of the prompt, as far as the next frame depends
/// on it.
pub struct Screen {
    /// An error is shown in the line below the prompt.
    pub has_error: bool,
    /// The number of lines below the prompt that show candidates.
    pub completion_lines: int,
    /// The column in which the text starts.
    pub prompt_start: int,
    /// The column of the cursor.
    pub cursor_position: int,
}

impl Screen {
    /// The columns are those of a terminal.
    pub open spec fn wf(self) -> bool {
        &&& 0 <= self.completion_lines <= u16::MAX
        &&& 0 <= self.prompt_start <= BASE_PROMPT_SIZE + MAX_LABEL + 1
        &&& 0 <= self.cursor_position <= u16::MAX
    }

    /// The screen before anything is painted.
    pub open spec fn blank() -> Screen {
        Screen {
            has_error: false,
            completion_lines: 0,
            prompt_start: BASE_PROMPT_SIZE as int,
            cursor_position: BASE_PROMPT_SIZE as int,
        }
    }

    /// The columns that are left for the text on a terminal of `columns`
    /// columns: those that the prompt does not take.
    pub open spec fn width(self, columns: int) -> int {
        if columns > self.prompt_start {
            columns - self.prompt_start
        } else {
            0
        }
    }

    /// The column of the cursor for `line`: as far behind the start of the
    /// text as the cursor is in the text, and at most the width.
    pub open spec fn column(self, line: Line, columns: int) -> int {
        self.prompt_start + least(line.cursor, self.width(columns))
    }

    /// The index in the text of the first character that is shown.
    pub open spec fn window_start(self, line: Line, columns: int) -> int {
        if line.text.len() >= self.width(columns) && line.cursor > self.width(columns) {
            line.cursor - self.width(columns)
        } else {
            0
        }
    }

    /// The part of the text that is shown: all of it where it takes less
    /// than the width, and else as many characters as the width, ending at
    /// the cursor, or starting with the text where the cursor is among the
    /// first of them.
    pub open spec fn window(self, line: Line, columns: int) -> Seq<char> {
        let start = self.window_start(line, columns);
        if line.text.len() < self.width(columns) {
            line.text
        } else {
            line.text.subrange(start, start + self.width(columns))
        }
    }

    /// The columns that the text leaves for the suggestion.
    pub open spec fn spare(self, line: Line, columns: int) -> int {
        if line.text.len() < self.width(columns) {
            self.width(columns) - line.text.len()
        } else {
            0
        }
    }

    /// The part of the suggestion that is shown: as much of it as the text
    /// leaves columns for.
    pub open spec fn overlay(self, prompt: Prompt, columns: int) -> Seq<char> {
        let spare = self.spare(prompt.line, columns);
        if spare > 0 {
            prompt.suggestion.text.subrange(0, least(prompt.suggestion.text.len() as int, spare))
        } else {
            Seq::empty()
        }
    }

    /// The commands that paint the text and, where columns are left, the
    /// suggestion behind it, and clear the rest of the line.
    pub open spec fn line_paints(self, prompt: Prompt, columns: int) -> Seq<Paint> {
        let text = seq![
            Paint::MoveToColumn(self.prompt_start),
            Paint::ResetColor,
            Paint::Print(self.window(prompt.line, columns)),
        ];
        let suggestion = if self.overlay(prompt, columns).len() > 0 {
            seq![
                Paint::SetForegroundColor(Color::Blue),
                Paint::Print(self.overlay(prompt, columns)),
                Paint::ResetColor,
            ]
        } else {
            Seq::empty()
        };
        text + suggestion + seq![Paint::ClearUntilNewLine]
    }

    /// The commands that take the error away, with the cursor in `column`.
    pub open spec fn error_paints(self, column: int) -> Seq<Paint> {
        if self.has_error {
            seq![
                Paint::MoveDown(1),
                Paint::ClearCurrentLine,
                Paint::MoveUp(1),
                Paint::MoveToColumn(column),
            ]
        } else {
            Seq::empty()
        }
    }

    /// The commands that take the candidates away, with the cursor in
    /// `column`.
    pub open spec fn clear_paints(self, column: int) -> Seq<Paint> {
        if self.completion_lines > 0 {
            wipe_paints(self.completion_lines) + seq![
                Paint::MoveUp(self.completion_lines),
                Paint::MoveToColumn(column),
            ]
        } else {
            Seq::empty()
        }
    }

    /// The number of candidates of a list that are painted: all of them, as
    /// far as a terminal counts lines.
    pub open spec fn shown(list: Selection) -> int {
        least(list.candidates.len() as int, u16::MAX as int)
    }

    /// The commands that paint the candidates below the prompt, with the
    /// cursor in `column`.
    pub open spec fn list_paints(list: Selection, column: int) -> Seq<Paint> {
        candidate_paints(list, Screen::shown(list)) + if Screen::shown(list) > 0 {
            seq![Paint::MoveUp(Screen::shown(list)), Paint::MoveToColumn(column)]
        } else {
            seq![Paint::MoveToColumn(column)]
        }
    }

    /// The commands of a frame: the text and the suggestion, what clears the
    /// lines below that the last frame filled, the candidates where a list
    /// is offered, and the cursor put in its column.
    pub open spec fn frame_paints(self, prompt: Prompt, columns: int) -> Seq<Paint> {
        let column = self.column(prompt.line, columns);
        self.line_paints(prompt, columns) + self.clear_paints(column) + self.error_paints(column)
            + match prompt.completions {
            Some(list) => Screen::list_paints(list, column),
            None => Seq::empty(),
        } + seq![Paint::MoveToColumn(column), Paint::Flush]
    }

    /// The screen after a frame.
    pub open spec fn framed(self, prompt: Prompt, columns: int) -> Screen {
        Screen {
            has_error: false,
            completion_lines: match prompt.completions {
                Some(list) => Screen::shown(list),
                None => 0,
            },
            prompt_start: self.prompt_start,
            cursor_position: self.column(prompt.line, columns),
        }
    }

    /// The commands that paint the prompt, after those that take the
    /// candidates away.
    pub open spec fn label_paints(self, label: Option<Seq<char>>) -> Seq<Paint> {
        self.clear_paints(self.cursor_position) + prompt_paints(label)
    }

    /// The screen once the prompt is painted: the text starts behind the
    /// prompt, and the cursor is there.
    pub open spec fn labelled(self, label: Option<Seq<char>>) -> Screen {
        Screen {
            has_error: self.has_error,
            completion_lines: 0,
            prompt_start: prompt_size(label),
            cursor_position: prompt_size(label),
        }
    }

    /// The commands that show `message` as an error in the line below the
    /// prompt, after those that take the candidates away.
    pub open spec fn report_paints(self, message: Seq<char>) -> Seq<Paint> {
        self.clear_paints(self.cursor_position) + seq![
            Paint::NewLine,
            Paint::MoveToColumn(0),
            Paint::ClearCurrentLine,
            Paint::SetForegroundColor(Color::Red),
            Paint::Print("Error: "@),
            Paint::ResetColor,
            Paint::Print(message),
            Paint::MoveUp(1),
            Paint::MoveToColumn(self.cursor_position),
            Paint::Flush,
        ]
    }

    /// The screen once an error is shown.
    pub open spec fn reported(self) -> Screen {
        Screen {
            has_error: true,
            completion_lines: 0,
            prompt_start: self.prompt_start,
            cursor_position: self.cursor_position,
        }
    }
}

/// The label of a mode: the name of the target while a query is composed.
pub open spec fn label_of(stage: Stage) -> Option<Seq<char>> {
    match stage {
        Stage::SelectingTarget => None,
        Stage::ComposingQuery(target) => Some(target),
    }
}

/// The cursor of a frame is in a column of the text, and what is shown of
/// the text is the part of it that starts that many characters before the
/// cursor: the cursor is in the window or just behind it.
pub proof fn lemma_cursor_is_visible(screen: Screen, line: Line, columns: int)
    requires
        screen.wf(),
        line.wf(),
        0 <= columns,
    ensures
        screen.prompt_start <= screen.column(line, columns) <= screen.prompt_start + screen.width(
            columns,
        ),
        screen.window(line, columns).len() <= screen.width(columns),
        0 <= screen.window_start(line, columns) <= line.cursor,
        line.cursor - screen.window_start(line, columns) == screen.column(line, columns)
            - screen.prompt_start,
        line.cursor <= screen.window_start(line, columns) + screen.window(line, columns).len(),
        screen.window(line, columns) == line.text.subrange(
            screen.window_start(line, columns),
            screen.window_start(line, columns) + screen.window(line, columns).len(),
        ),
{
    let width = screen.width(columns);
    let start = screen.window_start(line, columns);
    if line.text.len() < width {
        assert(line.text.subrange(0, line.text.len() as int) == line.text);
    }
}

/// The account of what the terminal shows.
#[derive(Debug)]
pub struct Terminal {
    has_error: bool,
    completion_lines: u16,
    prompt_start: u16,
    cursor_position: u16,
}

impl View for Terminal {
    type V = Screen;

    closed spec fn view(&self) -> Screen {
        Screen {
            has_error: self.has_error,
            completion_lines: self.completion_lines as int,
            prompt_start: self.prompt_start as int,
            cursor_position: self.cursor_position as int,
        }
    }
}

/// The account of a terminal on which nothing is painted yet.
pub fn new() -> (terminal: Terminal)
    ensures
        terminal.wf(),
        terminal@ == Screen::blank(),
{
    Terminal {
        has_error: false,
        completion_lines: 0,
        prompt_start: BASE_PROMPT_SIZE,
        cursor_position: BASE_PROMPT_SIZE,
    }
}

/// The part of a secondary label that is shown, and the columns that it
/// takes with the bar in front of it.
pub fn clip_prompt(prompt: &str) -> (clip: (String, u16))
    ensures
        clip.0@ == clipped(prompt@),
        clip.1 == clipped(prompt@).len() + 1,
        clip.1 <= MAX_LABEL + 1,
{
    let chars = chars_of(prompt);
    let count = if chars.len() > MAX_LABEL {
        MAX_LABEL
    } else {
        chars.len()
    };
    let effective_prompt = string_of(&chars, 0, count);
    let size = count as u16 + 1;
    (effective_prompt, size)
}

/// Adds a command to those that are queued.
fn emit(out: &mut Vec<Command>, command: Command)
    ensures
        paints(final(out)@) == paints(old(out)@).push(command@),
{
    out.push(command);
    assert(paints(out@) =~= paints(old(out)@).push(command@));
}

/// Adds the command that prints `text`.
fn emit_print(out: &mut Vec<Command>, text: &str)
    ensures
        paints(final(out)@) == paints(old(out)@).push(Paint::Print(text@)),
{
    emit(out, Command::Print(text.to_owned()));
}

impl Terminal {
    /// The columns are those of a terminal.
    pub open spec fn wf(&self) -> bool {
        self@.wf()
    }

    /// Paints the prompt: the primary label, the secondary one behind a bar
    /// where there is one, and the mark. The text starts behind it.
    pub fn set_prompt(&mut self, secondary_prompt: &Option<&str>) -> (commands: Vec<Command>)
        requires
            old(self).wf(),
        ensures
            final(self).wf(),
            final(self)@ == old(self)@.labelled(
                match *secondary_prompt {
                    Some(label) => Some(label@),
                    None => None,
                },
            ),
            paints(commands@) == old(self)@.label_paints(
                match *secondary_prompt {
                    Some(label) => Some(label@),
                    None => None,
                },
            ),
    {
        let mut out: Vec<Command> = Vec::new();
        assert(paints(out@) =~= Seq::<Paint>::empty());
        self.prompt_start = BASE_PROMPT_SIZE;
        self.clear_completions(&mut out);
        let ghost cleared = paints(out@);
        emit(&mut out, Command::MoveToColumn(0));
        emit(&mut out, Command::ClearCurrentLine);
        emit(&mut out, Command::SetForegroundColor(Color::DarkGreen));
        emit_print(&mut out, "vai");
        emit(&mut out, Command::ResetColor);
        if let Some(secondary_prompt) = secondary_prompt {
            let (effective_prompt, size) = clip_prompt(secondary_prompt);
            self.prompt_start += size;
            emit_print(&mut out, "|");
            emit(&mut out, Command::SetForegroundColor(Color::Green));
            emit(&mut out, Command::Print(effective_prompt));
            emit(&mut out, Command::ResetColor);
        }
        emit_print(&mut out, "> ");
        self.cursor_position = self.prompt_start;
        assert(paints(out@) =~= cleared + prompt_paints(
            match *secondary_prompt {
                Some(label) => Some(label@),
                None => None,
            },
        ));
        out
    }

    /// Paints a frame: the text, the suggestion behind it where columns are
    /// left, the candidates below where a list is offered, and the cursor in
    /// its place. `columns` is the width of the terminal.
    pub fn print(&mut self, context: &Context, columns: u16) -> (commands: Vec<Command>)
        requires
            old(self).wf(),
            context.wf(),
        ensures
            final(self).wf(),
            final(self)@ == old(self)@.framed(context@, columns as int),
            paints(commands@) == old(self)@.frame_paints(context@, columns as int),
    {
        let mut out: Vec<Command> = Vec::new();
        assert(paints(out@) =~= Seq::<Paint>::empty());
        let width: u16 = if columns > self.prompt_start {
            columns - self.prompt_start
        } else {
            0
        };
        let buffer = context.buffer();
        let position = *buffer.position();
        let shift: u16 = if position < width as usize {
            position as u16
        } else {
            width
        };
        self.cursor_position = self.prompt_start + shift;
        let ghost before = old(self)@;
        let ghost column = before.column(context@.line, columns as int);
        assert(self.cursor_position == column);

        let spare = self.print_buffer(buffer.data_raw(), position, width as usize, &mut out);
        self.print_suggester(context.suggester().data_raw(), spare, &mut out);
        emit(&mut out, Command::ClearUntilNewLine);
        assert(paints(out@) =~= before.line_paints(context@, columns as int));

        self.clear_completions(&mut out);
        self.clear_error(&mut out);
        self.print_completions(context.completions(), &mut out);
        emit(&mut out, Command::MoveToColumn(self.cursor_position));
        emit(&mut out, Command::Flush);
        assert(paints(out@) =~= before.frame_paints(context@, columns as int));
        out
    }

    /// Paints the prompt of the mode of `session` and a frame of its
    /// context behind it.
    pub fn render(&mut self, session: &Session, columns: u16) -> (commands: Vec<Command>)
        requires
            old(self).wf(),
            session.wf(),
        ensures
            final(self).wf(),
            final(self)@ == old(self)@.labelled(label_of(session@.stage)).framed(
                session@.prompt,
                columns as int,
            ),
            paints(commands@) == old(self)@.label_paints(label_of(session@.stage)) + old(
                self,
            )@.labelled(label_of(session@.stage)).frame_paints(session@.prompt, columns as int),
    {
        let mut commands = match session.mode() {
            Mode::SelectingTarget => self.set_prompt(&None),
            Mode::ComposingQuery(target) => self.set_prompt(&Some(target.as_str())),
        };
        let ghost label = paints(commands@);
        let mut frame = self.print(session.context(), columns);
        let ghost rest = paints(frame@);
        commands.append(&mut frame);
        assert(paints(commands@) =~= label + rest);
        commands
    }

    /// Queues what paints the part of the text that is shown, and returns
    /// the columns that are left behind it.
    fn print_buffer(&self, data: &Vec<char>, position: usize, width: usize, out: &mut Vec<Command>) -> (spare:
        usize)
        requires
            position <= data.len(),
            self.wf(),
        ensures
            ({
                let line = Line { text: data@, cursor: position as int };
                let columns = self@.prompt_start + width;
                &&& spare == self@.spare(line, columns)
                &&& paints(final(out)@) == paints(old(out)@) + seq![
                    Paint::MoveToColumn(self@.prompt_start),
                    Paint::ResetColor,
                    Paint::Print(self@.window(line, columns)),
                ]
            }),
    {
        let ghost start = paints(out@);
        emit(out, Command::MoveToColumn(self.prompt_start));
        emit(out, Command::ResetColor);
        let char_len = data.len();
        let spare = if char_len < width {
            emit(out, Command::Print(string_of(data, 0, char_len)));
            assert(data@.subrange(0, char_len as int) == data@);
            width - char_len
        } else {
            let shown = if position > width {
                string_of(data, position - width, position)
            } else {
                string_of(data, 0, width)
            };
            emit(out, Command::Print(shown));
            0
        };
        proof {
            let line = Line { text: data@, cursor: position as int };
            let columns = self@.prompt_start + width;
            assert(self@.width(columns) == width);
            assert(paints(out@) =~= start + seq![
                Paint::MoveToColumn(self@.prompt_start),
                Paint::ResetColor,
                Paint::Print(self@.window(line, columns)),
            ]);
        }
        spare
    }

    /// Queues what paints the suggestion in the columns that are left.
    fn print_suggester(&self, data: &Vec<char>, width: usize, out: &mut Vec<Command>)
        ensures
            paints(final(out)@) == paints(old(out)@) + if width > 0 && data@.len() > 0 {
                seq![
                    Paint::SetForegroundColor(Color::Blue),
                    Paint::Print(data@.subrange(0, least(data@.len() as int, width as int))),
                    Paint::ResetColor,
                ]
            } else {
                Seq::empty()
            },
    {
        let ghost start = paints(out@);
        if width > 0 && data.len() > 0 {
            let count = if data.len() < width {
                data.len()
            } else {
                width
            };
            emit(out, Command::SetForegroundColor(Color::Blue));
            emit(out, Command::Print(string_of(data, 0, count)));
            emit(out, Command::ResetColor);
            assert(paints(out@) =~= start + seq![
                Paint::SetForegroundColor(Color::Blue),
                Paint::Print(data@.subrange(0, least(data@.len() as int, width as int))),
                Paint::ResetColor,
            ]);
        } else {
            assert(paints(out@) =~= start + Seq::<Paint>::empty());
        }
    }

    /// Queues what takes the error away, if one is shown.
    fn clear_error(&mut self, out: &mut Vec<Command>)
        ensures
            paints(final(out)@) == paints(old(out)@) + old(self)@.error_paints(
                old(self)@.cursor_position,
            ),
            final(self)@ == (Screen { has_error: false, ..old(self)@ }),
    {
        let ghost start = paints(out@);
        if self.has_error {
            emit(out, Command::MoveDown(1));
            emit(out, Command::ClearCurrentLine);
            emit(out, Command::MoveUp(1));
            emit(out, Command::MoveToColumn(self.cursor_position));
            self.has_error = false;
        }
        assert(paints(out@) =~= start + old(self)@.error_paints(old(self)@.cursor_position));
    }

    /// Shows `message` as an error in the line below the prompt.
    pub fn print_error(&mut self, message: &str) -> (commands: Vec<Command>)
        requires
            old(self).wf(),
        ensures
            final(self).wf(),
            final(self)@ == old(self)@.reported(),
            paints(commands@) == old(self)@.report_paints(message@),
    {
        let mut out: Vec<Command> = Vec::new();
        assert(paints(out@) =~= Seq::<Paint>::empty());
        self.clear_completions(&mut out);
        let ghost cleared = paints(out@);
        emit(&mut out, Command::NewLine);
        emit(&mut out, Command::MoveToColumn(0));
        emit(&mut out, Command::ClearCurrentLine);
        emit(&mut out, Command::SetForegroundColor(Color::Red));
        emit_print(&mut out, "Error: ");
        emit(&mut out, Command::ResetColor);
        emit_print(&mut out, message);
        emit(&mut out, Command::MoveUp(1));
        emit(&mut out, Command::MoveToColumn(self.cursor_position));
        emit(&mut out, Command::Flush);
        self.has_error = true;
        assert(paints(out@) =~= old(self)@.report_paints(message@));
        out
    }

    /// Queues what takes the candidates away, if some are shown.
    fn clear_completions(&mut self, out: &mut Vec<Command>)
        ensures
            paints(final(out)@) == paints(old(out)@) + old(self)@.clear_paints(
                old(self)@.cursor_position,
            ),
            final(self)@ == (Screen { completion_lines: 0, ..old(self)@ }),
    {
        let ghost start = paints(out@);
        if self.completion_lines > 0 {
            let mut line: u16 = 0;
            while line < self.completion_lines
                invariant
                    line <= self.completion_lines,
                    self == old(self),
                    paints(out@) == start + wipe_paints(line as int),
                decreases self.completion_lines - line,
            {
                emit(out, Command::MoveDown(1));
                emit(out, Command::ClearCurrentLine);
                line += 1;
                assert(paints(out@) =~= start + wipe_paints(line as int));
            }
            emit(out, Command::MoveUp(self.completion_lines));
            emit(out, Command::MoveToColumn(self.cursor_position));
            self.completion_lines = 0;
        }
        assert(paints(out@) =~= start + old(self)@.clear_paints(old(self)@.cursor_position));
    }

    /// Queues what paints the candidates below the prompt, where a list is
    /// offered.
    fn print_completions(&mut self, completions: &Option<Completions>, out: &mut Vec<Command>)
        requires
            old(self)@.completion_lines == 0,
            completions matches Some(list) ==> list.wf(),
        ensures
            paints(final(out)@) == paints(old(out)@) + match *completions {
                Some(list) => Screen::list_paints(list@, old(self)@.cursor_position),
                None => Seq::empty(),
            },
            final(self)@ == (Screen {
                completion_lines: match *completions {
                    Some(list) => Screen::shown(list@),
                    None => 0,
                },
                ..old(self)@
            }),
    {
        let ghost start = paints(out@);
        if let Some(completions) = completions {
            let selected = *completions.selected();
            let data = completions.data();
            let ghost list = completions@;
            let mut index: usize = 0;
            while index < data.len() && self.completion_lines < u16::MAX
                invariant
                    index <= data.len(),
                    index == self.completion_lines,
                    data.deep_view() == list.candidates,
                    match selected {
                        Some(i) => list.selected == Some(i as int),
                        None => list.selected is None,
                    },
                    self@ == (Screen { completion_lines: index as int, ..old(self)@ }),
                    paints(out@) == start + candidate_paints(list, index as int),
                decreases data.len() - index,
            {
                assert(data.deep_view()[index as int] == data[index as int]@);
                emit(out, Command::NewLine);
                emit(out, Command::MoveToColumn(0));
                emit(out, Command::ClearCurrentLine);
                if selected == Some(index) {
                    emit(out, Command::SetBold);
                    emit(out, Command::Print(data[index].clone()));
                    emit(out, Command::ResetColor);
                } else {
                    emit(out, Command::Print(data[index].clone()));
                }
                self.completion_lines += 1;
                index += 1;
                assert(paints(out@) =~= start + candidate_paints(list, index as int));
            }
            if self.completion_lines > 0 {
                emit(out, Command::MoveUp(self.completion_lines));
            }
            emit(out, Command::MoveToColumn(self.cursor_position));
            assert(paints(out@) =~= start + Screen::list_paints(
                list,
                old(self)@.cursor_position,
            ));
        } else {
            assert(paints(out@) =~= start + Seq::<Paint>::empty());
        }
    }
}

} // verus!
