//! The command line: which arguments ask for what.

use crate::error::Error;
use crate::executors::{target_index, target_names, Executor, Executors};
use crate::text::{chars_of, join, joined, lowercase, push_str, same, starts_with, trim, trimmed};
use vstd::prelude::*;

verus! {

/// What the arguments of a call ask for.
#[derive(Debug, Eq, PartialEq)]
pub enum Mode {
    /// An option: the first argument starts with a dash.
    Support(Vec<String>),
    /// A target and a query, or the prompt where there is no argument.
    Execute(Vec<String>),
}

/// The arguments that count: all of `input` but the first, each without the
/// whitespace around it, and without those that are empty then.
pub open spec fn arguments(input: Seq<Seq<char>>) -> Seq<Seq<char>>
    decreases input.len(),
{
    if input.len() <= 1 {
        Seq::empty()
    } else if trimmed(input.last()).len() > 0 {
        arguments(input.drop_last()).push(trimmed(input.last()))
    } else {
        arguments(input.drop_last())
    }
}

/// Whether the arguments ask for an option: the first one starts with a dash.
pub open spec fn asks_support(arguments: Seq<Seq<char>>) -> bool {
    arguments.len() > 0 && arguments[0].len() > 0 && arguments[0][0] == '-'
}

/// Sorts out what a call asks for. `input` is the command line, the name of
/// the program first.
pub fn select_mode(input: Vec<String>) -> (mode: Mode)
    ensures
        match mode {
            Mode::Support(args) => asks_support(arguments(input.deep_view())) && args.deep_view()
                == arguments(input.deep_view()),
            Mode::Execute(args) => !asks_support(arguments(input.deep_view())) && args.deep_view()
                == arguments(input.deep_view()),
        },
{
    let mut args: Vec<String> = Vec::new();
    let ghost texts = input.deep_view();
    if input.len() <= 1 {
        assert(args.deep_view() =~= arguments(texts));
        return Mode::Execute(args);
    }
    let mut i: usize = 1;
    assert(args.deep_view() =~= arguments(texts.subrange(0, 1)));
    while i < input.len()
        invariant
            1 <= i <= input.len(),
            texts == input.deep_view(),
            args.deep_view() == arguments(texts.subrange(0, i as int)),
        decreases input.len() - i,
    {
        let ghost before = args.deep_view();
        let ghost next = texts.subrange(0, i + 1);
        assert(next.drop_last() == texts.subrange(0, i as int));
        assert(next.last() == input[i as int]@);
        let arg = trim(input[i].as_str());
        if !arg.as_str().is_empty() {
            args.push(arg);
            assert(args.deep_view() =~= before.push(arg@));
        }
        i += 1;
    }
    assert(texts.subrange(0, input.len() as int) == texts);
    let support = if args.len() > 0 {
        let first = chars_of(args[0].as_str());
        assert(args.deep_view()[0] == args[0]@);
        first.len() > 0 && first[0] == '-'
    } else {
        false
    };
    if support {
        Mode::Support(args)
    } else {
        Mode::Execute(args)
    }
}

/// The options of the command line.
#[derive(Debug, PartialEq, Eq)]
pub enum Flag {
    Help,
    Write,
    Read,
    Targets,
    Suggest,
    /// Anything else, as it was given.
    Unknown(String),
}

impl Flag {
    /// Whether `input` is the short or the long form of an option.
    pub open spec fn known(input: Seq<char>) -> bool {
        ||| input == "-h"@ || input == "--help"@
        ||| input == "-r"@ || input == "--read"@
        ||| input == "-w"@ || input == "--write"@
        ||| input == "-t"@ || input == "--targets"@
        ||| input == "-s"@ || input == "--suggest"@
    }

    /// The option that `input` names; `Unknown` with `input` itself where
    /// it names none.
    pub fn parse(input: &str) -> (flag: Flag)
        ensures
            match flag {
                Flag::Help => input@ == "-h"@ || input@ == "--help"@,
                Flag::Read => input@ == "-r"@ || input@ == "--read"@,
                Flag::Write => input@ == "-w"@ || input@ == "--write"@,
                Flag::Targets => input@ == "-t"@ || input@ == "--targets"@,
                Flag::Suggest => input@ == "-s"@ || input@ == "--suggest"@,
                Flag::Unknown(command) => !Flag::known(input@) && command@ == input@,
            },
    {
        if same(input, "-h") || same(input, "--help") {
            Flag::Help
        } else if same(input, "-r") || same(input, "--read") {
            Flag::Read
        } else if same(input, "-w") || same(input, "--write") {
            Flag::Write
        } else if same(input, "-t") || same(input, "--targets") {
            Flag::Targets
        } else if same(input, "-s") || same(input, "--suggest") {
            Flag::Suggest
        } else {
            Flag::Unknown(input.to_owned())
        }
    }

    /// The short form of the option; empty for an unknown one.
    pub fn short(&self) -> (form: &'static str)
        ensures
            form@ == match self {
                Flag::Write => "-w"@,
                Flag::Read => "-r"@,
                Flag::Targets => "-t"@,
                Flag::Suggest => "-s"@,
                Flag::Help => "-h"@,
                Flag::Unknown(_) => ""@,
            },
    {
        match self {
            Flag::Write => "-w",
            Flag::Read => "-r",
            Flag::Targets => "-t",
            Flag::Suggest => "-s",
            Flag::Help => "-h",
            Flag::Unknown(_) => "",
        }
    }

    /// The long form of the option; empty for an unknown one.
    pub fn long(&self) -> (form: &'static str)
        ensures
            form@ == match self {
                Flag::Write => "--write"@,
                Flag::Read => "--read"@,
                Flag::Targets => "--targets"@,
                Flag::Suggest => "--suggest"@,
                Flag::Help => "--help"@,
                Flag::Unknown(_) => ""@,
            },
    {
        match self {
            Flag::Write => "--write",
            Flag::Read => "--read",
            Flag::Targets => "--targets",
            Flag::Suggest => "--suggest",
            Flag::Help => "--help",
            Flag::Unknown(_) => "",
        }
    }

    /// What the option does, in a line; empty for an unknown one.
    pub fn description(&self) -> (line: &'static str)
        ensures
            line@ == match self {
                Flag::Write => "Write saved configuration to stdout"@,
                Flag::Read => "Read configuration from stdin and save"@,
                Flag::Targets => "Write configured targets to stdout"@,
                Flag::Suggest => "Print a list of suggestions for the given input"@,
                Flag::Help => "Display usage message"@,
                Flag::Unknown(_) => ""@,
            },
    {
        match self {
            Flag::Write => "Write saved configuration to stdout",
            Flag::Read => "Read configuration from stdin and save",
            Flag::Targets => "Write configured targets to stdout",
            Flag::Suggest => "Print a list of suggestions for the given input",
            Flag::Help => "Display usage message",
            Flag::Unknown(_) => "",
        }
    }

    /// The known options, in the order in which the usage lists them.
    pub fn values() -> (flags: Vec<Flag>)
        ensures
            flags@ == seq![Flag::Write, Flag::Read, Flag::Targets, Flag::Suggest, Flag::Help],
    {
        let mut flags: Vec<Flag> = Vec::new();
        flags.push(Flag::Write);
        flags.push(Flag::Read);
        flags.push(Flag::Targets);
        flags.push(Flag::Suggest);
        flags.push(Flag::Help);
        assert(flags@ =~= seq![Flag::Write, Flag::Read, Flag::Targets, Flag::Suggest, Flag::Help]);
        flags
    }
}

/// The query that the arguments from `index` on make: those arguments with
/// a space between each two of them. `NoQuery` where there is no argument at
/// `index`.
pub fn extract_query(args: Vec<String>, index: usize) -> (query: Result<String, Error>)
    ensures
        args.len() <= index ==> query == Err::<String, Error>(Error::NoQuery),
        args.len() > index ==> (query matches Ok(text) && text@ == joined(
            args.deep_view().subrange(index as int, args.len() as int),
            " "@,
        )),
{
    if args.len() <= index {
        Err(Error::NoQuery)
    } else {
        Ok(join(&args, index, " "))
    }
}

/// The target and the query that the arguments name, where their first
/// word stands for a target: the query is the arguments behind the first,
/// with a space between each two of them.
pub fn direct<'a>(args: &Vec<String>, executors: &'a Executors) -> (named: Option<
    (&'a Executor, String),
>)
    ensures
        named is Some <==> args.len() > 0 && target_index(executors@, lowercase(args[0]@))
            is Some,
        named matches Some((executor, query)) ==> {
            &&& executor@ == executors@[target_index(executors@, lowercase(args[0]@))->0]
            &&& query@ == joined(args.deep_view().subrange(1, args.len() as int), " "@)
        },
{
    if args.len() == 0 {
        return None;
    }
    match executors.find(args[0].as_str()) {
        Some(executor) => Some((executor, join(args, 1, " "))),
        None => None,
    }
}

/// The names that start with `prefix`, in their order.
pub open spec fn starting(names: Seq<Seq<char>>, prefix: Seq<char>) -> Seq<Seq<char>>
    decreases names.len(),
{
    if names.len() == 0 {
        Seq::empty()
    } else if prefix.is_prefix_of(names.last()) {
        starting(names.drop_last(), prefix).push(names.last())
    } else {
        starting(names.drop_last(), prefix)
    }
}

/// The names of the targets that start with `prefix`, in the order of the
/// targets.
pub fn possible_targets(executors: &Executors, prefix: &str) -> (names: Vec<String>)
    ensures
        names.deep_view() == starting(target_names(executors@), prefix@),
{
    let targets = executors.list_targets();
    let wanted = chars_of(prefix);
    let ghost all = target_names(executors@);
    let mut names: Vec<String> = Vec::new();
    let mut i: usize = 0;
    assert(names.deep_view() =~= starting(all.subrange(0, 0), prefix@));
    while i < targets.len()
        invariant
            i <= targets.len(),
            targets.len() == all.len(),
            wanted@ == prefix@,
            forall|j: int| 0 <= j < targets.len() ==> (#[trigger] targets[j])@ == all[j],
            names.deep_view() == starting(all.subrange(0, i as int), prefix@),
        decreases targets.len() - i,
    {
        let ghost before = names.deep_view();
        let ghost next = all.subrange(0, i + 1);
        assert(next.drop_last() == all.subrange(0, i as int));
        assert(next.last() == targets[i as int]@);
        let name = chars_of(targets[i].as_str());
        assert(wanted@.subrange(0, wanted.len() as int) == wanted@);
        if starts_with(&name, &wanted, 0, wanted.len()) {
            names.push(targets[i].clone());
            assert(names.deep_view() =~= before.push(targets[i as int]@));
        }
        i += 1;
    }
    assert(all.subrange(0, targets.len() as int) == all);
    names
}

/// The targets as the usage shows them behind the argument they are for:
/// a space and their names in brackets, a space between each two of them;
/// nothing where there is no target.
pub fn targets_hint(names: &Vec<String>) -> (hint: String)
    ensures
        hint@ == if names.len() == 0 {
            Seq::<char>::empty()
        } else {
            " ["@ + joined(names.deep_view(), " "@) + "]"@
        },
{
    let mut hint = String::new();
    if names.len() > 0 {
        assert(names.deep_view().subrange(0, names.len() as int) == names.deep_view());
        push_str(&mut hint, " [");
        push_str(&mut hint, join(names, 0, " ").as_str());
        push_str(&mut hint, "]");
    }
    hint
}

} // verus!
