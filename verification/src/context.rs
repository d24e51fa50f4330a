//! The buffer together with its suggestion and its completion candidates.

use crate::action::{Direction, EditAction, Scope};
use crate::buffer::{lemma_write_str_at_end, Buffer, Line, MAX_LENGTH};
use crate::navigation::lemma_word_bounds;
use crate::completions::{Completions, Selection};
use crate::suggester::{Suggester, Suggestion};
use vstd::prelude::*;

verus! {

/// What a context is: the line, the state of the suggester, and the
/// completion list where one has been asked for since the last edit.
pub struct Prompt {
    pub line: Line,
    pub suggestion: Suggestion,
    pub completions: Option<Selection>,
}

impl Prompt {
    /// The line and the completion list are well formed.
    pub open spec fn wf(self) -> bool {
        &&& self.line.wf()
        &&& self.completions matches Some(list) ==> list.wf()
    }

    /// The context after an edit: the line edited, the suggestion updated
    /// for it, and no completion list.
    pub open spec fn edit(self, action: EditAction) -> Prompt {
        Prompt {
            line: self.line.edit(action),
            suggestion: self.suggestion.update(self.line.edit(action)),
            completions: None,
        }
    }

    /// Whether a cursor movement of `scope` accepts the suggestion: the
    /// cursor is at the end of the line and the movement goes forward.
    pub open spec fn accepts(self, scope: Scope) -> bool {
        self.line.at_end() && scope.is_forward()
    }

    /// What a cursor movement of `scope` takes from the suggestion: its
    /// first chunk for a movement by a word, all of it otherwise.
    pub open spec fn accepted(self, scope: Scope) -> Seq<char> {
        if scope == Scope::ForwardWord {
            self.suggestion.text.subrange(0, self.suggestion.chunk())
        } else {
            self.suggestion.text
        }
    }

    /// The context after a cursor movement. At the end of the line a
    /// movement forward first writes what it accepts of the suggestion,
    /// which the suggester gives up.
    pub open spec fn move_cursor(self, scope: Scope) -> Prompt {
        if self.accepts(scope) {
            Prompt {
                line: self.line.write_str(self.accepted(scope)).move_cursor(scope),
                suggestion: if scope == Scope::ForwardWord {
                    self.suggestion.taken_next_word()
                } else {
                    self.suggestion.taken()
                },
                completions: self.completions,
            }
        } else {
            Prompt {
                line: self.line.move_cursor(scope),
                suggestion: self.suggestion,
                completions: self.completions,
            }
        }
    }

    /// The context once `candidates` are offered as its completion list,
    /// none of them selected.
    pub open spec fn offer(self, candidates: Seq<Seq<char>>) -> Prompt {
        Prompt {
            line: self.line,
            suggestion: self.suggestion,
            completions: Some(Selection { candidates, selected: None }),
        }
    }

    /// The context after a step through `list`, its completion list: the
    /// selected candidate becomes the text, and the suggestion is updated
    /// for it. Unchanged where the list has no candidate.
    pub open spec fn cycle(self, list: Selection, direction: Direction) -> Prompt {
        let stepped = match direction {
            Direction::Down => list.down(),
            Direction::Up => list.up(),
        };
        match stepped.current() {
            Some(candidate) if list.candidates.len() > 0 => Prompt {
                line: self.line.set_str(candidate),
                suggestion: self.suggestion.update(self.line.set_str(candidate)),
                completions: Some(stepped),
            },
            _ => self,
        }
    }
}

impl Prompt {
    /// The context that a mode starts with: the line as it is carried over,
    /// the suggestion computed for it from `candidates`, and no completion
    /// list.
    pub open spec fn fresh(line: Line, candidates: Seq<Seq<char>>) -> Prompt {
        Prompt {
            line,
            suggestion: (Suggestion { candidates, text: Seq::empty(), seen: 0 }).update(line),
            completions: None,
        }
    }
}

/// A cursor movement forward at the end of the line accepts the suggestion:
/// where the line has room for it, the text becomes the text and the
/// suggestion one after the other, the cursor stays at the end, and no
/// suggestion is left.
pub proof fn lemma_forward_accepts_suggestion(prompt: Prompt)
    requires
        prompt.wf(),
        prompt.line.at_end(),
        prompt.line.text.len() + prompt.suggestion.text.len() <= MAX_LENGTH,
    ensures
        prompt.move_cursor(Scope::Forward).line.text == prompt.line.text + prompt.suggestion.text,
        prompt.move_cursor(Scope::Forward).line.at_end(),
        prompt.move_cursor(Scope::Forward).suggestion.text == Seq::<char>::empty(),
        prompt.move_cursor(Scope::ForwardAll) == prompt.move_cursor(Scope::Forward),
{
    lemma_write_str_at_end(prompt.line, prompt.suggestion.text);
}

/// A cursor movement by a word at the end of the line accepts the first
/// chunk of the suggestion: where the line has room for it, the text and the
/// suggestion together read as before.
pub proof fn lemma_forward_word_accepts_chunk(prompt: Prompt)
    requires
        prompt.wf(),
        prompt.line.at_end(),
        prompt.line.text.len() + prompt.suggestion.text.len() <= MAX_LENGTH,
    ensures
        prompt.move_cursor(Scope::ForwardWord).line.text + prompt.move_cursor(
            Scope::ForwardWord,
        ).suggestion.text == prompt.line.text + prompt.suggestion.text,
        prompt.move_cursor(Scope::ForwardWord).line.at_end(),
{
    let chunk = prompt.accepted(Scope::ForwardWord);
    lemma_word_bounds(prompt.suggestion.text, 0);
    lemma_write_str_at_end(prompt.line, chunk);
    let written = prompt.line.write_str(chunk);
    lemma_word_bounds(written.text, written.cursor);
    assert(prompt.move_cursor(Scope::ForwardWord).line.text + prompt.move_cursor(
        Scope::ForwardWord,
    ).suggestion.text =~= prompt.line.text + prompt.suggestion.text);
}

/// The state of the prompt in one mode.
#[derive(Debug)]
pub struct Context {
    buffer: Buffer,
    suggester: Suggester,
    completions: Option<Completions>,
}

impl View for Context {
    type V = Prompt;

    closed spec fn view(&self) -> Prompt {
        Prompt {
            line: self.buffer@,
            suggestion: self.suggester@,
            completions: match self.completions {
                Some(list) => Some(list@),
                None => None,
            },
        }
    }
}

/// A context over `buffer` that suggests from `suggestions`, with the
/// suggestion computed for the buffer as it is.
pub fn new(buffer: Buffer, suggestions: Vec<String>) -> (context: Context)
    requires
        buffer.wf(),
    ensures
        context.wf(),
        context@ == Prompt::fresh(buffer@, suggestions.deep_view()),
{
    let mut context = Context {
        buffer,
        suggester: crate::suggester::new(suggestions),
        completions: None,
    };
    context.suggester.update(&context.buffer);
    context
}

impl Context {
    /// The buffer and the completion list are well formed.
    pub open spec fn wf(&self) -> bool {
        self@.wf()
    }

    /// The buffer.
    pub fn buffer(&self) -> (buffer: &Buffer)
        ensures
            buffer@ == self@.line,
    {
        &self.buffer
    }

    /// The suggester.
    pub fn suggester(&self) -> (suggester: &Suggester)
        ensures
            suggester@ == self@.suggestion,
    {
        &self.suggester
    }

    /// The completion list, if one is offered.
    pub fn completions(&self) -> (completions: &Option<Completions>)
        ensures
            match *completions {
                Some(list) => self@.completions == Some(list@),
                None => self@.completions is None,
            },
    {
        &self.completions
    }

    /// Edits the buffer, updates the suggestion and drops the completion
    /// list.
    pub fn edit(&mut self, action: &EditAction)
        requires
            old(self).wf(),
        ensures
            final(self).wf(),
            final(self)@ == old(self)@.edit(*action),
    {
        self.buffer.edit(action);
        self.suggester.update(&self.buffer);
        self.completions = None;
    }

    /// Moves the cursor. At the end of the buffer a movement forward first
    /// writes the suggestion into it, or the first chunk of the suggestion
    /// for a movement by a word.
    pub fn move_cursor(&mut self, scope: &Scope)
        requires
            old(self).wf(),
        ensures
            final(self).wf(),
            final(self)@ == old(self)@.move_cursor(*scope),
    {
        if self.buffer.at_end() {
            match scope {
                Scope::Forward | Scope::ForwardAll => {
                    let taken = self.suggester.take();
                    self.buffer.write_str(taken.as_str());
                },
                Scope::ForwardWord => {
                    let taken = self.suggester.take_next_word();
                    self.buffer.write_str(taken.as_str());
                },
                _ => {},
            }
        }
        self.buffer.move_cursor(scope)
    }

    /// Offers `candidates` as the completion list, none of them selected.
    pub fn offer(&mut self, candidates: Vec<String>)
        ensures
            final(self)@ == old(self)@.offer(candidates.deep_view()),
    {
        self.completions = Some(crate::completions::new(candidates));
    }

    /// The buffer, the context given up.
    pub fn into_buffer(self) -> (buffer: Buffer)
        ensures
            buffer@ == self@.line,
    {
        self.buffer
    }

    /// Steps through the completion list in `direction` and makes the
    /// selected candidate the text of the buffer. Does nothing where no list
    /// is offered or the list is empty, and says whether a list is offered.
    pub fn cycle(&mut self, direction: &Direction) -> (offered: bool)
        requires
            old(self).wf(),
        ensures
            final(self).wf(),
            offered == old(self)@.completions is Some,
            match old(self)@.completions {
                Some(list) => final(self)@ == old(self)@.cycle(list, *direction),
                None => final(self)@ == old(self)@,
            },
    {
        match &mut self.completions {
            Some(completions) => {
                let selected = match direction {
                    Direction::Down => completions.select_down(),
                    Direction::Up => completions.select_up(),
                };
                if let Some(completion) = selected {
                    self.buffer.set_str(completion);
                    self.suggester.update(&self.buffer);
                }
                true
            },
            None => false,
        }
    }

    /// Where a completion list is offered, steps through it in `direction`
    /// and makes the selected candidate the text of the buffer. Where none
    /// is, asks `supplier` for the candidates and offers them.
    pub fn complete<S>(&mut self, direction: &Direction, supplier: S)
        where
            S: Fn() -> Vec<String>,
        requires
            old(self).wf(),
            call_requires(supplier, ()),
        ensures
            final(self).wf(),
            match old(self)@.completions {
                Some(list) => final(self)@ == old(self)@.cycle(list, *direction),
                None => exists|candidates: Vec<String>|
                    call_ensures(supplier, (), candidates) && final(self)@ == old(self)@.offer(
                        candidates.deep_view(),
                    ),
            },
    {
        if !self.cycle(direction) {
            let candidates = supplier();
            self.offer(candidates);
        }
    }
}

} // verus!
