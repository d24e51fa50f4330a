//! The two modes of the prompt and the transitions between them.
//!
//! A session is either selecting a target or composing a query for one. It
//! takes one action at a time and says what is to be done outside of it: to
//! read on, to leave, to report an unknown target, to enter the other mode
//! with the history of the chosen target, or to dispatch the query.

use crate::action::{Action, Direction};
use crate::buffer::{Buffer, Line};
use crate::context::{Context, Prompt};
use crate::executors::{target_index, target_names, Executors, Target};
use crate::text::lowercase;
use vstd::prelude::*;

verus! {

/// What a mode is.
pub enum Stage {
    /// No target is chosen yet.
    SelectingTarget,
    /// The query is composed for the target that was entered by this name.
    ComposingQuery(Seq<char>),
}

/// The mode of a session.
#[derive(Debug)]
pub enum Mode {
    /// The first word of the buffer names the target.
    SelectingTarget,
    /// The buffer holds the query for the target of this name.
    ComposingQuery(String),
}

impl View for Mode {
    type V = Stage;

    open spec fn view(&self) -> Stage {
        match self {
            Mode::SelectingTarget => Stage::SelectingTarget,
            Mode::ComposingQuery(target) => Stage::ComposingQuery(target@),
        }
    }
}

/// What a session is: its mode and its context.
pub struct Status {
    pub stage: Stage,
    pub prompt: Prompt,
}

impl Status {
    /// The session that selects a target among `targets`, starting from
    /// `line`.
    pub open spec fn selecting(line: Line, targets: Seq<Target>) -> Status {
        Status {
            stage: Stage::SelectingTarget,
            prompt: Prompt::fresh(line, target_names(targets)),
        }
    }

    /// The session that composes a query for `target`, starting from `line`
    /// and suggesting from `history`.
    pub open spec fn composing(target: Seq<char>, line: Line, history: Seq<Seq<char>>) -> Status {
        Status { stage: Stage::ComposingQuery(target), prompt: Prompt::fresh(line, history) }
    }

    /// The same mode with another context.
    pub open spec fn with(self, prompt: Prompt) -> Status {
        Status { stage: self.stage, prompt }
    }

    /// The session after a cancel: back to selecting, the name of the target
    /// and a space put in front of the text, the cursor behind that space.
    /// Unchanged while selecting.
    pub open spec fn cancel(self, targets: Seq<Target>) -> Status {
        match self.stage {
            Stage::SelectingTarget => self,
            Stage::ComposingQuery(target) => Status::selecting(
                self.prompt.line.behind(target),
                targets,
            ),
        }
    }

    /// Whether an execute while selecting chooses a target: the text starts
    /// with a completed word, and that word stands for one of `targets`.
    pub open spec fn chooses(self, targets: Seq<Target>) -> bool {
        &&& self.prompt.line.has_first_word()
        &&& target_index(targets, lowercase(self.prompt.line.first_word())) is Some
    }
}

/// What is to be done after a step of the session.
#[derive(Debug)]
pub enum Outcome {
    /// Draw the prompt and read the next action.
    Continue,
    /// Leave the prompt.
    Exit,
    /// Report that the first word names no target, then go on.
    InvalidTarget,
    /// Fetch the history of the target of this name and go on with
    /// `compose` of the name, the buffer and that history.
    Select(String, Buffer),
    /// Dispatch this query to the target of the session. Leave where that
    /// succeeds; report the failure and go on where it does not.
    Dispatch(String),
}

/// The prompt in one of its two modes.
#[derive(Debug)]
pub struct Session {
    mode: Mode,
    context: Context,
}

impl View for Session {
    type V = Status;

    closed spec fn view(&self) -> Status {
        Status { stage: self.mode@, prompt: self.context@ }
    }
}

/// The names of the targets, each as a string of its own.
pub fn names_of(executors: &Executors) -> (names: Vec<String>)
    ensures
        names.deep_view() == target_names(executors@),
{
    let targets = executors.list_targets();
    let mut names: Vec<String> = Vec::new();
    let mut i: usize = 0;
    while i < targets.len()
        invariant
            i <= targets.len(),
            names.len() == i,
            targets.len() == executors@.len(),
            forall|j: int| 0 <= j < targets.len() ==> (#[trigger] targets[j])@ == executors@[j].name,
            forall|j: int| 0 <= j < i ==> (#[trigger] names[j])@ == executors@[j].name,
        decreases targets.len() - i,
    {
        names.push(targets[i].clone());
        i += 1;
    }
    assert(names.deep_view() =~= target_names(executors@));
    names
}

/// The session that selects a target among `executors`, with `buffer` as
/// its text and their names as the source of its suggestions.
pub fn select(buffer: Buffer, executors: &Executors) -> (session: Session)
    requires
        buffer.wf(),
    ensures
        session.wf(),
        session@ == Status::selecting(buffer@, executors@),
{
    Session {
        mode: Mode::SelectingTarget,
        context: crate::context::new(buffer, names_of(executors)),
    }
}

/// The session that composes a query for the target entered as `target`,
/// with `buffer` as its text and `history` as the source of its
/// suggestions.
pub fn compose(target: String, buffer: Buffer, history: Vec<String>) -> (session: Session)
    requires
        buffer.wf(),
    ensures
        session.wf(),
        session@ == Status::composing(target@, buffer@, history.deep_view()),
{
    Session { mode: Mode::ComposingQuery(target), context: crate::context::new(buffer, history) }
}

impl Session {
    /// The context is well formed.
    pub open spec fn wf(&self) -> bool {
        self@.prompt.wf()
    }

    /// The mode.
    pub fn mode(&self) -> (mode: &Mode)
        ensures
            mode@ == self@.stage,
    {
        &self.mode
    }

    /// The context.
    pub fn context(&self) -> (context: &Context)
        ensures
            context@ == self@.prompt,
    {
        &self.context
    }

    /// What an execute asks for. While selecting: nothing where the text
    /// does not start with a completed word, the mode for that word where it
    /// stands for a target, a report where it does not. While composing: the
    /// dispatch of the text.
    pub fn execute(&self, executors: &Executors) -> (outcome: Outcome)
        requires
            self.wf(),
        ensures
            match self@.stage {
                Stage::SelectingTarget => if !self@.prompt.line.has_first_word() {
                    outcome is Continue
                } else if self@.chooses(executors@) {
                    &&& outcome matches Outcome::Select(target, buffer)
                    &&& target@ == self@.prompt.line.first_word()
                    &&& buffer.wf()
                    &&& buffer@ == self@.prompt.line.after_first_word()
                } else {
                    outcome is InvalidTarget
                },
                Stage::ComposingQuery(_) => outcome matches Outcome::Dispatch(query) && query@
                    == self@.prompt.line.text,
            },
    {
        match &self.mode {
            Mode::SelectingTarget => {
                match self.context.buffer().extract_first_word() {
                    Some((target, buffer)) => {
                        if executors.find(target.as_str()).is_some() {
                            Outcome::Select(target, buffer)
                        } else {
                            Outcome::InvalidTarget
                        }
                    },
                    None => Outcome::Continue,
                }
            },
            Mode::ComposingQuery(_) => Outcome::Dispatch(self.context.buffer().data()),
        }
    }

    /// The session after a cancel: back to selecting a target among
    /// `executors`, with the name of the target and a space in front of the
    /// text. Unchanged while selecting.
    pub fn cancel(self, executors: &Executors) -> (next: Session)
        requires
            self.wf(),
        ensures
            next.wf(),
            next@ == self@.cancel(executors@),
    {
        match self.mode {
            Mode::SelectingTarget => self,
            Mode::ComposingQuery(target) => {
                let buffer = crate::buffer::from(target.as_str(), self.context.into_buffer());
                select(buffer, executors)
            },
        }
    }

    /// Offers the completion candidates, or steps through them where they
    /// are offered already. While selecting the candidates are the names of
    /// the targets; while composing they are what `supplier` returns.
    pub fn complete<S>(&mut self, direction: &Direction, executors: &Executors, supplier: S)
        where
            S: Fn() -> Vec<String>,
        requires
            old(self).wf(),
            call_requires(supplier, ()),
        ensures
            final(self).wf(),
            final(self)@.stage == old(self)@.stage,
            match old(self)@.prompt.completions {
                Some(list) => final(self)@.prompt == old(self)@.prompt.cycle(list, *direction),
                None => match old(self)@.stage {
                    Stage::SelectingTarget => final(self)@.prompt == old(self)@.prompt.offer(
                        target_names(executors@),
                    ),
                    Stage::ComposingQuery(_) => exists|candidates: Vec<String>|
                        call_ensures(supplier, (), candidates) && final(self)@.prompt == old(
                            self,
                        )@.prompt.offer(candidates.deep_view()),
                },
            },
    {
        match &self.mode {
            Mode::SelectingTarget => {
                if !self.context.cycle(direction) {
                    self.context.offer(names_of(executors));
                }
            },
            Mode::ComposingQuery(_) => {
                self.context.complete(direction, supplier);
            },
        }
    }

    /// Takes one action and says what is to be done after it.
    pub fn step<S>(self, action: &Action, executors: &Executors, supplier: S) -> (stepped: (
        Session,
        Outcome,
    ))
        where
            S: Fn() -> Vec<String>,
        requires
            self.wf(),
            call_requires(supplier, ()),
        ensures
            stepped.0.wf(),
            match *action {
                Action::Noop => stepped.0@ == self@ && stepped.1 is Continue,
                Action::Exit => stepped.0@ == self@ && stepped.1 is Exit,
                Action::Edit(edit) => stepped.0@ == self@.with(self@.prompt.edit(edit))
                    && stepped.1 is Continue,
                Action::MoveCursor(scope) => stepped.0@ == self@.with(
                    self@.prompt.move_cursor(scope),
                ) && stepped.1 is Continue,
                Action::Cancel => stepped.0@ == self@.cancel(executors@) && stepped.1 is Continue,
                Action::Complete(direction) => {
                    &&& stepped.1 is Continue
                    &&& stepped.0@.stage == self@.stage
                    &&& match self@.prompt.completions {
                        Some(list) => stepped.0@.prompt == self@.prompt.cycle(list, direction),
                        None => match self@.stage {
                            Stage::SelectingTarget => stepped.0@.prompt == self@.prompt.offer(
                                target_names(executors@),
                            ),
                            Stage::ComposingQuery(_) => exists|candidates: Vec<String>|
                                call_ensures(supplier, (), candidates) && stepped.0@.prompt
                                    == self@.prompt.offer(candidates.deep_view()),
                        },
                    }
                },
                Action::Execute => {
                    &&& stepped.0@ == self@
                    &&& match self@.stage {
                        Stage::SelectingTarget => if !self@.prompt.line.has_first_word() {
                            stepped.1 is Continue
                        } else if self@.chooses(executors@) {
                            &&& stepped.1 matches Outcome::Select(target, buffer)
                            &&& target@ == self@.prompt.line.first_word()
                            &&& buffer.wf()
                            &&& buffer@ == self@.prompt.line.after_first_word()
                        } else {
                            stepped.1 is InvalidTarget
                        },
                        Stage::ComposingQuery(_) => stepped.1 matches Outcome::Dispatch(query)
                            && query@ == self@.prompt.line.text,
                    }
                },
            },
    {
        let mut session = self;
        match action {
            Action::Noop => (session, Outcome::Continue),
            Action::Exit => (session, Outcome::Exit),
            Action::Edit(edit) => {
                session.context.edit(edit);
                (session, Outcome::Continue)
            },
            Action::MoveCursor(scope) => {
                session.context.move_cursor(scope);
                (session, Outcome::Continue)
            },
            Action::Cancel => (session.cancel(executors), Outcome::Continue),
            Action::Complete(direction) => {
                session.complete(direction, executors, supplier);
                (session, Outcome::Continue)
            },
            Action::Execute => {
                let outcome = session.execute(executors);
                (session, outcome)
            },
        }
    }
}

} // verus!
