//! The edited line: its text and the cursor in it.

use crate::action::{EditAction, Scope};
use crate::navigation::{
    lemma_run_end, lemma_word_bounds, next_word, next_word_index, previous_word,
    previous_word_end, previous_word_end_index, previous_word_index, run_end, scan_forward,
};
use crate::text::{chars_of, copy_range, string_of};
use vstd::prelude::*;

verus! {

/// The number of characters that a buffer takes by writing: as many as a
/// terminal counts columns, less those that are kept for the prompt.
pub const MAX_LENGTH: usize = 65529;

/// What a buffer is: a text and a cursor between two of its characters, at
/// its start or at its end.
pub struct Line {
    pub text: Seq<char>,
    pub cursor: int,
}

impl Line {
    /// The cursor is in `[0, length]`.
    pub open spec fn wf(self) -> bool {
        0 <= self.cursor <= self.text.len()
    }

    /// The cursor stands behind the last character.
    pub open spec fn at_end(self) -> bool {
        self.cursor == self.text.len()
    }

    /// How many of `count` characters can still be written.
    pub open spec fn room(self, count: int) -> int {
        if self.text.len() >= MAX_LENGTH {
            0
        } else if count <= MAX_LENGTH - self.text.len() {
            count
        } else {
            MAX_LENGTH - self.text.len()
        }
    }

    /// The text without the characters in `[from, to)`.
    pub open spec fn without(self, from: int, to: int) -> Seq<char> {
        self.text.subrange(0, from) + self.text.subrange(to, self.text.len() as int)
    }

    /// `c` inserted at the cursor and the cursor behind it; unchanged once
    /// the text has `MAX_LENGTH` characters.
    pub open spec fn write(self, c: char) -> Line {
        if self.text.len() < MAX_LENGTH {
            Line { text: self.text.insert(self.cursor, c), cursor: self.cursor + 1 }
        } else {
            self
        }
    }

    /// The characters of `s` written one after the other: as many of them as
    /// there is room for, inserted at the cursor, and the cursor behind them.
    pub open spec fn write_str(self, s: Seq<char>) -> Line {
        let n = self.room(s.len() as int);
        Line {
            text: self.text.subrange(0, self.cursor) + s.subrange(0, n) + self.text.subrange(
                self.cursor,
                self.text.len() as int,
            ),
            cursor: self.cursor + n,
        }
    }

    /// The line that holds the first `MAX_LENGTH` characters of `s`, the
    /// cursor at its end.
    pub open spec fn set_str(self, s: Seq<char>) -> Line {
        Line { text: Seq::empty(), cursor: 0 }.write_str(s)
    }

    /// The range `[start, end)` that deleting the word at the cursor
    /// consumes: from the end of the previous word to the start of the next.
    pub open spec fn word_range(self) -> (int, int) {
        (previous_word_end_index(self.text, self.cursor), next_word_index(self.text, self.cursor))
    }

    /// The line after a delete of the given scope.
    pub open spec fn delete(self, scope: Scope) -> Line {
        let len = self.text.len() as int;
        match scope {
            Scope::Back => if self.cursor > 0 {
                Line { text: self.text.remove(self.cursor - 1), cursor: self.cursor - 1 }
            } else {
                self
            },
            Scope::Forward => if self.cursor < len {
                Line { text: self.text.remove(self.cursor), cursor: self.cursor }
            } else {
                self
            },
            Scope::BackWord => {
                let index = previous_word_index(self.text, self.cursor);
                Line { text: self.without(index, self.cursor), cursor: index }
            },
            Scope::ForwardWord => {
                let index = next_word_index(self.text, self.cursor);
                Line { text: self.without(self.cursor, index), cursor: self.cursor }
            },
            Scope::BackAll => Line { text: self.text.subrange(self.cursor, len), cursor: 0 },
            Scope::ForwardAll => Line {
                text: self.text.subrange(0, self.cursor),
                cursor: self.cursor,
            },
            Scope::All => Line { text: Seq::empty(), cursor: 0 },
            Scope::WordAll => if len == 0 {
                self
            } else {
                let (start, end) = self.word_range();
                Line {
                    text: self.text.subrange(0, start).push(' ') + self.text.subrange(end, len),
                    cursor: start,
                }
            },
        }
    }

    /// The line after an edit.
    pub open spec fn edit(self, action: EditAction) -> Line {
        match action {
            EditAction::Write(c) => self.write(c),
            EditAction::Delete(scope) => self.delete(scope),
        }
    }

    /// Where the cursor stands after a movement of the given scope.
    pub open spec fn moved(self, scope: Scope) -> int {
        match scope {
            Scope::Back => if self.cursor > 0 {
                self.cursor - 1
            } else {
                self.cursor
            },
            Scope::Forward => if self.cursor < self.text.len() {
                self.cursor + 1
            } else {
                self.cursor
            },
            Scope::BackWord => previous_word_index(self.text, self.cursor),
            Scope::ForwardWord => next_word_index(self.text, self.cursor),
            Scope::BackAll => 0,
            Scope::ForwardAll => self.text.len() as int,
            Scope::All | Scope::WordAll => self.cursor,
        }
    }

    /// The line after a cursor movement: the same text, the cursor moved.
    pub open spec fn move_cursor(self, scope: Scope) -> Line {
        Line { text: self.text, cursor: self.moved(scope) }
    }

    /// Where the first word ends: the end of the run of characters other than
    /// whitespace that starts the text.
    pub open spec fn first_word_end(self) -> int {
        run_end(self.text, 0, false)
    }

    /// Whether the text starts with a completed word: a character that is
    /// not whitespace, and whitespace somewhere behind it.
    pub open spec fn has_first_word(self) -> bool {
        0 < self.first_word_end() < self.text.len()
    }

    /// The first word of the text.
    pub open spec fn first_word(self) -> Seq<char> {
        self.text.subrange(0, self.first_word_end())
    }

    /// What is left behind the first word and the whitespace after it, with
    /// the cursor where it was in that text, or at its start if it stood in
    /// what was taken away.
    pub open spec fn after_first_word(self) -> Line {
        let index = next_word_index(self.text, 0);
        Line {
            text: self.text.subrange(index, self.text.len() as int),
            cursor: if self.cursor < index {
                0
            } else {
                self.cursor - index
            },
        }
    }

    /// The line `target`, a space, and then this line's text, the cursor
    /// behind the space.
    pub open spec fn behind(self, target: Seq<char>) -> Line {
        Line { text: target.push(' ') + self.text, cursor: target.len() as int + 1 }
    }
}

/// Whatever the scope, a cursor movement leaves the text as it is and the
/// cursor in `[0, length]`.
pub proof fn lemma_move_cursor_in_bounds(line: Line, scope: Scope)
    requires
        line.wf(),
    ensures
        line.move_cursor(scope).text == line.text,
        0 <= line.move_cursor(scope).cursor <= line.text.len(),
{
    lemma_word_bounds(line.text, line.cursor);
}

/// Whatever the edit, the cursor is in `[0, length]` of the edited text.
pub proof fn lemma_edit_in_bounds(line: Line, action: EditAction)
    requires
        line.wf(),
    ensures
        line.edit(action).wf(),
{
    lemma_word_bounds(line.text, line.cursor);
}

/// Deleting the word at the cursor of a text that is not empty consumes
/// the range from the end of the previous word to the start of the next,
/// which is not empty, and leaves one space for it: the text gets shorter by
/// the length of that range less one.
pub proof fn lemma_delete_word_all_length(line: Line)
    requires
        line.wf(),
        line.text.len() > 0,
    ensures
        0 <= line.word_range().0 < line.word_range().1 <= line.text.len(),
        line.text.len() - line.delete(Scope::WordAll).text.len() == (line.word_range().1
            - line.word_range().0) - 1,
        line.delete(Scope::WordAll).text[line.delete(Scope::WordAll).cursor] == ' ',
{
    lemma_word_bounds(line.text, line.cursor);
}

/// Writing a string at the end of a text that has room for all of it
/// appends it, and the cursor stays at the end.
pub proof fn lemma_write_str_at_end(line: Line, s: Seq<char>)
    requires
        line.wf(),
        line.at_end(),
        line.text.len() + s.len() <= MAX_LENGTH,
    ensures
        line.write_str(s).text == line.text + s,
        line.write_str(s).at_end(),
{
    assert(line.write_str(s).text =~= line.text + s);
}

/// The text of the prompt and the cursor in it.
#[derive(Debug)]
pub struct Buffer {
    data: Vec<char>,
    position: usize,
}

impl View for Buffer {
    type V = Line;

    closed spec fn view(&self) -> Line {
        Line { text: self.data@, cursor: self.position as int }
    }
}

/// An empty buffer.
pub fn new() -> (buffer: Buffer)
    ensures
        buffer.wf(),
        buffer@.text == Seq::<char>::empty(),
        buffer@.cursor == 0,
{
    Buffer { data: Vec::new(), position: 0 }
}

/// The buffer that holds `target`, a space and the text of `buffer`, with
/// the cursor behind that space.
pub fn from(target: &str, buffer: Buffer) -> (joined: Buffer)
    requires
        buffer.wf(),
    ensures
        joined.wf(),
        joined@ == buffer@.behind(target@),
{
    let mut rest = buffer.data;
    let mut data = chars_of(target);
    data.push(' ');
    let position = data.len();
    data.append(&mut rest);
    Buffer { data, position }
}

/// Takes the characters in `[from, to)` out of `data`.
fn remove_range(data: &mut Vec<char>, from: usize, to: usize)
    requires
        from <= to <= old(data).len(),
    ensures
        final(data)@ == old(data)@.subrange(0, from as int) + old(data)@.subrange(
            to as int,
            old(data).len() as int,
        ),
{
    let mut tail = data.split_off(to);
    data.truncate(from);
    data.append(&mut tail);
}

impl Buffer {
    /// The cursor is in `[0, length]`.
    pub open spec fn wf(&self) -> bool {
        self@.wf()
    }

    /// The index of the character that the cursor stands in front of.
    pub fn position(&self) -> (position: &usize)
        ensures
            *position == self@.cursor,
    {
        &self.position
    }

    /// Whether the cursor stands behind the last character.
    pub fn at_end(&self) -> (end: bool)
        ensures
            end == self@.at_end(),
    {
        self.position == self.data.len()
    }

    /// The text as a string.
    pub fn data(&self) -> (text: String)
        ensures
            text@ == self@.text,
    {
        let text = string_of(&self.data, 0, self.data.len());
        assert(self.data@.subrange(0, self.data.len() as int) == self.data@);
        text
    }

    /// The text as characters.
    pub fn data_raw(&self) -> (text: &Vec<char>)
        ensures
            text@ == self@.text,
    {
        &self.data
    }

    /// Replaces the text by `string`, as far as a buffer takes it, and puts
    /// the cursor at its end.
    pub fn set_str(&mut self, string: &str)
        ensures
            final(self).wf(),
            final(self)@ == old(self)@.set_str(string@),
    {
        self.clear();
        self.write_str(string);
    }

    /// Writes the characters of `string` at the cursor, one after the other.
    pub fn write_str(&mut self, string: &str)
        requires
            old(self).wf(),
        ensures
            final(self).wf(),
            final(self)@ == old(self)@.write_str(string@),
    {
        let chars = chars_of(string);
        let ghost before = self@;
        let mut i: usize = 0;
        assert(before.write_str(chars@.subrange(0, 0)).text =~= before.text);
        while i < chars.len()
            invariant
                i <= chars.len(),
                chars@ == string@,
                before.wf(),
                self.wf(),
                self@ == before.write_str(chars@.subrange(0, i as int)),
            decreases chars.len() - i,
        {
            proof {
                let done = chars@.subrange(0, i as int);
                let next = chars@.subrange(0, i + 1);
                let n = before.room(i as int);
                assert(done.subrange(0, n) == next.subrange(0, n));
                if before.text.len() + i < MAX_LENGTH {
                    assert(next.subrange(0, i + 1) == done.subrange(0, i as int).push(chars@[i as int]));
                    assert(self@.write(chars@[i as int]).text == before.write_str(next).text);
                }
            }
            self.write(chars[i]);
            i += 1;
        }
        assert(chars@.subrange(0, chars.len() as int) == chars@);
    }

    /// The first word and what is left behind it, if the text starts with a
    /// word that whitespace completes.
    pub fn extract_first_word(&self) -> (extracted: Option<(String, Buffer)>)
        requires
            self.wf(),
        ensures
            extracted is Some <==> self@.has_first_word(),
            extracted matches Some((word, rest)) ==> {
                &&& word@ == self@.first_word()
                &&& rest.wf()
                &&& rest@ == self@.after_first_word()
            },
    {
        proof {
            lemma_run_end(self.data@, 0, false);
            lemma_run_end(self.data@, run_end(self.data@, 0, false), true);
        }
        let end = scan_forward(&self.data, 0, false);
        if end == 0 || end == self.data.len() {
            None
        } else {
            let index = scan_forward(&self.data, end, true);
            let first_word = string_of(&self.data, 0, end);
            let data = copy_range(&self.data, index, self.data.len());
            let position = if self.position < index {
                0
            } else {
                self.position - index
            };
            Some((first_word, Buffer { data, position }))
        }
    }

    /// Empties the buffer.
    pub fn clear(&mut self)
        ensures
            final(self).wf(),
            final(self)@.text == Seq::<char>::empty(),
            final(self)@.cursor == 0,
    {
        self.data.clear();
        self.position = 0;
    }

    /// Inserts `c` at the cursor and moves the cursor behind it; does
    /// nothing once the text has `MAX_LENGTH` characters.
    pub fn write(&mut self, c: char)
        requires
            old(self).wf(),
        ensures
            final(self).wf(),
            final(self)@ == old(self)@.write(c),
    {
        if self.data.len() < MAX_LENGTH {
            self.data.insert(self.position, c);
            self.position += 1;
        }
    }

    /// Deletes what `scope` covers at the cursor; does nothing where that is
    /// nothing.
    pub fn delete(&mut self, scope: &Scope)
        requires
            old(self).wf(),
        ensures
            final(self).wf(),
            final(self)@ == old(self)@.delete(*scope),
    {
        let ghost before = self@;
        proof {
            lemma_word_bounds(self.data@, self.position as int);
        }
        match scope {
            Scope::Back => {
                if self.position > 0 {
                    self.data.remove(self.position - 1);
                    self.position -= 1;
                }
            },
            Scope::Forward => {
                if self.position < self.data.len() {
                    self.data.remove(self.position);
                }
            },
            Scope::BackWord => {
                let index = previous_word(self.position, &self.data);
                remove_range(&mut self.data, index, self.position);
                self.position = index;
            },
            Scope::ForwardWord => {
                let index = next_word(self.position, &self.data);
                remove_range(&mut self.data, self.position, index);
            },
            Scope::BackAll => {
                remove_range(&mut self.data, 0, self.position);
                self.position = 0;
            },
            Scope::ForwardAll => {
                self.data.truncate(self.position);
            },
            Scope::All => {
                self.data.clear();
                self.position = 0;
            },
            Scope::WordAll => {
                if self.data.len() > 0 {
                    let start = previous_word_end(self.position, &self.data);
                    let end = next_word(self.position, &self.data);
                    remove_range(&mut self.data, start + 1, end);
                    self.data.set(start, ' ');
                    self.position = start;
                }
            },
        }
        assert(self@.text =~= before.delete(*scope).text);
    }

    /// Applies an edit to the text.
    pub fn edit(&mut self, action: &EditAction)
        requires
            old(self).wf(),
        ensures
            final(self).wf(),
            final(self)@ == old(self)@.edit(*action),
    {
        match action {
            EditAction::Write(c) => self.write(*c),
            EditAction::Delete(scope) => self.delete(scope),
        }
    }

    /// Moves the cursor by `scope`, never out of the text.
    pub fn move_cursor(&mut self, scope: &Scope)
        requires
            old(self).wf(),
        ensures
            final(self).wf(),
            final(self)@ == old(self)@.move_cursor(*scope),
    {
        proof {
            lemma_word_bounds(self.data@, self.position as int);
        }
        match scope {
            Scope::Back => {
                if self.position > 0 {
                    self.position -= 1;
                }
            },
            Scope::Forward => {
                if self.position < self.data.len() {
                    self.position += 1;
                }
            },
            Scope::BackWord => {
                self.position = previous_word(self.position, &self.data);
            },
            Scope::ForwardWord => {
                self.position = next_word(self.position, &self.data);
            },
            Scope::BackAll => {
                self.position = 0;
            },
            Scope::ForwardAll => {
                if self.position < self.data.len() {
                    self.position = self.data.len();
                }
            },
            Scope::WordAll | Scope::All => {},
        }
    }
}

} // verus!
