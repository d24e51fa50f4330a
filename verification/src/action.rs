//! What the user can ask of the prompt.

use vstd::prelude::*;

verus! {

/// How far an edit or a cursor movement reaches from the cursor.
#[derive(Clone, Copy, Debug, PartialEq, Eq, Structural)]
pub enum Scope {
    /// One character back.
    Back,
    /// One character forward.
    Forward,
    /// Back to the start of the previous word.
    BackWord,
    /// Forward to the start of the next word.
    ForwardWord,
    /// Back to the start of the line.
    BackAll,
    /// Forward to the end of the line.
    ForwardAll,
    /// The whole line; deletes only.
    All,
    /// The word at the cursor; deletes only.
    WordAll,
}

/// A change to the text.
#[derive(Clone, Copy, Debug, PartialEq, Eq, Structural)]
pub enum EditAction {
    /// Insert a character at the cursor.
    Write(char),
    /// Delete what the scope covers.
    Delete(Scope),
}

/// The way to walk the completion candidates.
#[derive(Clone, Copy, Debug, PartialEq, Eq, Structural)]
pub enum Direction {
    /// Towards the first candidate.
    Up,
    /// Towards the last candidate.
    Down,
}

/// One request of the user.
#[derive(Clone, Copy, Debug, PartialEq, Eq, Structural)]
pub enum Action {
    /// Change the text.
    Edit(EditAction),
    /// Move the cursor, accepting the suggestion at the end of the line.
    MoveCursor(Scope),
    /// Choose the target, or dispatch the query.
    Execute,
    /// Go back to choosing a target.
    Cancel,
    /// Offer the completion candidates, or walk them.
    Complete(Direction),
    /// Leave the prompt.
    Exit,
    /// Nothing.
    Noop,
}

/// A key of the keyboard, as far as the prompt tells keys apart.
#[derive(Clone, Copy, Debug, PartialEq, Eq, Structural)]
pub enum KeyCode {
    Enter,
    Tab,
    /// Tab with shift.
    BackTab,
    Backspace,
    Delete,
    Right,
    Left,
    Home,
    End,
    /// A key that stands for a character.
    Char(char),
    /// Any other key.
    Other,
}

/// A key that was pressed and the modifiers that were held with it.
#[derive(Clone, Copy, Debug, PartialEq, Eq, Structural)]
pub struct Key {
    pub code: KeyCode,
    pub shift: bool,
    pub control: bool,
    pub alt: bool,
    /// Some modifier other than shift, control and alt.
    pub other: bool,
}

impl Key {
    /// Control is held, and no other modifier.
    pub open spec fn only_control(self) -> bool {
        self.control && !self.shift && !self.alt && !self.other
    }

    /// Alt is held, and no other modifier.
    pub open spec fn only_alt(self) -> bool {
        self.alt && !self.shift && !self.control && !self.other
    }

    /// What a character key asks for with control held.
    pub open spec fn control_action(c: char) -> Action {
        if c == 'm' {
            Action::Execute
        } else if c == 'c' {
            Action::Cancel
        } else if c == 'd' {
            Action::Exit
        } else if c == 'b' {
            Action::MoveCursor(Scope::Back)
        } else if c == 'f' {
            Action::MoveCursor(Scope::Forward)
        } else if c == 'a' {
            Action::MoveCursor(Scope::BackAll)
        } else if c == 'e' {
            Action::MoveCursor(Scope::ForwardAll)
        } else if c == 'j' {
            Action::Edit(EditAction::Delete(Scope::BackWord))
        } else if c == 'k' {
            Action::Edit(EditAction::Delete(Scope::ForwardWord))
        } else if c == 'h' {
            Action::Edit(EditAction::Delete(Scope::BackAll))
        } else if c == 'l' {
            Action::Edit(EditAction::Delete(Scope::ForwardAll))
        } else if c == 'w' {
            Action::Edit(EditAction::Delete(Scope::WordAll))
        } else if c == 'u' {
            Action::Edit(EditAction::Delete(Scope::All))
        } else {
            Action::Noop
        }
    }

    /// What a character key asks for with alt held.
    pub open spec fn alt_action(c: char) -> Action {
        if c == 'b' {
            Action::MoveCursor(Scope::BackWord)
        } else if c == 'f' {
            Action::MoveCursor(Scope::ForwardWord)
        } else {
            Action::Noop
        }
    }

    /// What the key asks for. The modifiers count for character keys only:
    /// with control alone or alt alone a character is a command, with
    /// anything else it is written.
    pub open spec fn action(self) -> Action {
        match self.code {
            KeyCode::Enter => Action::Execute,
            KeyCode::Tab => Action::Complete(Direction::Down),
            KeyCode::BackTab => Action::Complete(Direction::Up),
            KeyCode::Backspace => Action::Edit(EditAction::Delete(Scope::Back)),
            KeyCode::Delete => Action::Edit(EditAction::Delete(Scope::Forward)),
            KeyCode::Right => Action::MoveCursor(Scope::Forward),
            KeyCode::Left => Action::MoveCursor(Scope::Back),
            KeyCode::Home => Action::MoveCursor(Scope::BackAll),
            KeyCode::End => Action::MoveCursor(Scope::ForwardAll),
            KeyCode::Char(c) => if self.only_control() {
                Key::control_action(c)
            } else if self.only_alt() {
                Key::alt_action(c)
            } else {
                Action::Edit(EditAction::Write(c))
            },
            KeyCode::Other => Action::Noop,
        }
    }
}

/// Whether control is the one modifier held with `key`.
fn control(key: &Key) -> (held: bool)
    ensures
        held == key.only_control(),
{
    key.control && !key.shift && !key.alt && !key.other
}

/// Whether alt is the one modifier held with `key`.
fn alt(key: &Key) -> (held: bool)
    ensures
        held == key.only_alt(),
{
    key.alt && !key.shift && !key.control && !key.other
}

/// The action that a key asks for.
pub fn read(key: &Key) -> (action: Action)
    ensures
        action == key.action(),
{
    match key.code {
        KeyCode::Enter => Action::Execute,
        KeyCode::Tab => Action::Complete(Direction::Down),
        KeyCode::BackTab => Action::Complete(Direction::Up),
        KeyCode::Backspace => Action::Edit(EditAction::Delete(Scope::Back)),
        KeyCode::Delete => Action::Edit(EditAction::Delete(Scope::Forward)),
        KeyCode::Right => Action::MoveCursor(Scope::Forward),
        KeyCode::Left => Action::MoveCursor(Scope::Back),
        KeyCode::Home => Action::MoveCursor(Scope::BackAll),
        KeyCode::End => Action::MoveCursor(Scope::ForwardAll),
        KeyCode::Char(c) => {
            if control(key) {
                match c {
                    'm' => Action::Execute,
                    'c' => Action::Cancel,
                    'd' => Action::Exit,
                    'b' => Action::MoveCursor(Scope::Back),
                    'f' => Action::MoveCursor(Scope::Forward),
                    'a' => Action::MoveCursor(Scope::BackAll),
                    'e' => Action::MoveCursor(Scope::ForwardAll),
                    'j' => Action::Edit(EditAction::Delete(Scope::BackWord)),
                    'k' => Action::Edit(EditAction::Delete(Scope::ForwardWord)),
                    'h' => Action::Edit(EditAction::Delete(Scope::BackAll)),
                    'l' => Action::Edit(EditAction::Delete(Scope::ForwardAll)),
                    'w' => Action::Edit(EditAction::Delete(Scope::WordAll)),
                    'u' => Action::Edit(EditAction::Delete(Scope::All)),
                    _ => Action::Noop,
                }
            } else if alt(key) {
                match c {
                    'b' => Action::MoveCursor(Scope::BackWord),
                    'f' => Action::MoveCursor(Scope::ForwardWord),
                    _ => Action::Noop,
                }
            } else {
                Action::Edit(EditAction::Write(c))
            }
        },
        KeyCode::Other => Action::Noop,
    }
}

impl Scope {
    /// Whether a cursor movement of this scope goes forward, and so accepts
    /// the suggestion at the end of the line.
    pub open spec fn is_forward(self) -> bool {
        self == Scope::Forward || self == Scope::ForwardAll || self == Scope::ForwardWord
    }
}

} // verus!
