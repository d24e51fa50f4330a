//! The targets that a query can be sent to.

use crate::parser::Parser;
use crate::text::{lowercase, push_str};
use vstd::prelude::*;
use vstd::utf8::encode_utf8;

verus! {

/// What an executor is: the texts it was configured with.
pub struct Target {
    pub name: Seq<char>,
    pub alias: Seq<char>,
    pub command: Seq<char>,
    pub suggestion: Seq<char>,
    pub parser: Parser,
}

/// The index of the first target at or after `from` with the given name.
pub open spec fn first_named(targets: Seq<Target>, name: Seq<char>, from: int) -> Option<int>
    decreases targets.len() - from,
{
    if from < 0 || from >= targets.len() {
        None
    } else if targets[from].name == name {
        Some(from)
    } else {
        first_named(targets, name, from + 1)
    }
}

/// The index of the first target at or after `from` with the given alias.
pub open spec fn first_aliased(targets: Seq<Target>, alias: Seq<char>, from: int) -> Option<int>
    decreases targets.len() - from,
{
    if from < 0 || from >= targets.len() {
        None
    } else if targets[from].alias == alias {
        Some(from)
    } else {
        first_aliased(targets, alias, from + 1)
    }
}

/// The index of the target that `key` stands for: the first one of that
/// name, or, where there is none, the first one of that alias.
pub open spec fn target_index(targets: Seq<Target>, key: Seq<char>) -> Option<int> {
    match first_named(targets, key, 0) {
        Some(i) => Some(i),
        None => first_aliased(targets, key, 0),
    }
}

/// The names of the targets, in their order.
pub open spec fn target_names(targets: Seq<Target>) -> Seq<Seq<char>> {
    Seq::new(targets.len(), |i: int| targets[i].name)
}

/// `first_named` finds a target of that name which none from `from` on
/// precedes; it finds none only where there is none.
pub proof fn lemma_first_named(targets: Seq<Target>, name: Seq<char>, from: int)
    requires
        0 <= from,
    ensures
        match first_named(targets, name, from) {
            Some(i) => {
                &&& from <= i < targets.len()
                &&& targets[i].name == name
                &&& forall|j: int| from <= j < i ==> (#[trigger] targets[j]).name != name
            },
            None => forall|j: int| from <= j < targets.len() ==> (#[trigger] targets[j]).name != name,
        },
    decreases targets.len() - from,
{
    if from < targets.len() && targets[from].name != name {
        lemma_first_named(targets, name, from + 1);
    }
}

/// `first_aliased` finds a target of that alias which none from `from` on
/// precedes; it finds none only where there is none.
pub proof fn lemma_first_aliased(targets: Seq<Target>, alias: Seq<char>, from: int)
    requires
        0 <= from,
    ensures
        match first_aliased(targets, alias, from) {
            Some(i) => {
                &&& from <= i < targets.len()
                &&& targets[i].alias == alias
                &&& forall|j: int| from <= j < i ==> (#[trigger] targets[j]).alias != alias
            },
            None => forall|j: int|
                from <= j < targets.len() ==> (#[trigger] targets[j]).alias != alias,
        },
    decreases targets.len() - from,
{
    if from < targets.len() && targets[from].alias != alias {
        lemma_first_aliased(targets, alias, from + 1);
    }
}

/// A target for querying: a name and an alias to call it by, the address
/// that a query is appended to, and where and how to ask for suggestions.
#[derive(PartialEq, Debug)]
pub struct Executor {
    name: String,
    alias: String,
    command: String,
    suggestion: String,
    parser: Parser,
}

impl View for Executor {
    type V = Target;

    closed spec fn view(&self) -> Target {
        Target {
            name: self.name@,
            alias: self.alias@,
            command: self.command@,
            suggestion: self.suggestion@,
            parser: self.parser,
        }
    }
}

impl Executor {
    /// An executor with the given configuration.
    pub fn new(name: String, alias: String, command: String, suggestion: String, parser: Parser) -> (executor:
        Executor)
        ensures
            executor@ == (Target {
                name: name@,
                alias: alias@,
                command: command@,
                suggestion: suggestion@,
                parser,
            }),
    {
        Executor { name, alias, command, suggestion, parser }
    }

    /// The same executor with its name and its alias in lowercase.
    pub fn clean_up_name(self) -> (cleaned: Executor)
        ensures
            cleaned@ == (Target {
                name: lowercase(self@.name),
                alias: lowercase(self@.alias),
                ..self@
            }),
    {
        Executor {
            name: self.name.as_str().to_lowercase(),
            alias: self.alias.as_str().to_lowercase(),
            command: self.command,
            suggestion: self.suggestion,
            parser: self.parser,
        }
    }

    /// The name of this executor.
    #[must_use]
    pub fn name(&self) -> (name: &str)
        ensures
            name@ == self@.name,
    {
        self.name.as_str()
    }

    /// The second name of this executor.
    pub fn alias(&self) -> (alias: &str)
        ensures
            alias@ == self@.alias,
    {
        self.alias.as_str()
    }

    /// The address that a query is appended to.
    pub fn command(&self) -> (command: &str)
        ensures
            command@ == self@.command,
    {
        self.command.as_str()
    }

    /// The address of the suggestion service that a query is appended to.
    pub fn suggestion(&self) -> (suggestion: &str)
        ensures
            suggestion@ == self@.suggestion,
    {
        self.suggestion.as_str()
    }

    /// The name of the file that keeps the queries sent to this executor.
    pub fn history_file(&self) -> (file: String)
        ensures
            file@ == "history_"@ + self@.name,
    {
        let mut file = "history_".to_owned();
        push_str(&mut file, self.name.as_str());
        file
    }

    /// The address that opens `query` at this target: the command with the
    /// query behind it.
    pub fn url(&self, query: &str) -> (url: String)
        ensures
            url@ == self@.command + query@,
    {
        let mut url = self.command.clone();
        push_str(&mut url, query);
        url
    }

    /// Whether there is anything to ask the suggestion service of this
    /// target for `query`: the query takes three bytes at least, and the
    /// target has a service and a way to read its answers.
    pub open spec fn suggests(self, query: Seq<char>) -> bool {
        &&& encode_utf8(query).len() >= 3
        &&& self@.suggestion.len() > 0
        &&& self@.parser != Parser::Nothing
    }

    /// The address that asks the suggestion service of this target for
    /// `query`, where there is anything to ask: the address of the service
    /// with the query behind it.
    pub fn suggestion_url(&self, query: &str) -> (url: Option<String>)
        ensures
            match url {
                Some(address) => self.suggests(query@) && address@ == self@.suggestion + query@,
                None => !self.suggests(query@),
            },
    {
        if query.as_bytes().len() < 3 || self.suggestion.as_str().is_empty() || self.parser
            == Parser::Nothing {
            return None;
        }
        let mut url = self.suggestion.clone();
        push_str(&mut url, query);
        Some(url)
    }

    /// How the answers of the suggestion service are read.
    pub fn parser(&self) -> (parser: Parser)
        ensures
            parser == self@.parser,
    {
        self.parser
    }
}

/// All the targets that are known, in the order of the configuration.
#[derive(PartialEq, Debug)]
pub struct Executors(Vec<Executor>);

impl View for Executors {
    type V = Seq<Target>;

    closed spec fn view(&self) -> Seq<Target> {
        Seq::new(self.0.len() as nat, |i: int| self.0[i]@)
    }
}

impl Executors {
    /// The targets of `executors`, as they are.
    pub fn new(executors: Vec<Executor>) -> (all: Executors)
        ensures
            all@ == Seq::new(executors.len() as nat, |i: int| executors[i]@),
    {
        Executors(executors)
    }

    /// The targets of `executors`, each with its name and alias in
    /// lowercase.
    pub fn cleaned(executors: Vec<Executor>) -> (all: Executors)
        ensures
            all@ == Seq::new(
                executors.len() as nat,
                |i: int|
                    Target {
                        name: lowercase(executors[i]@.name),
                        alias: lowercase(executors[i]@.alias),
                        ..executors[i]@
                    },
            ),
    {
        let mut executors = executors;
        let mut cleaned: Vec<Executor> = Vec::new();
        let ghost given = executors@;
        while executors.len() > 0
            invariant
                cleaned.len() + executors.len() == given.len(),
                forall|i: int|
                    0 <= i < executors.len() ==> executors[i] == given[i],
                forall|i: int|
                    0 <= i < cleaned.len() ==> (#[trigger] cleaned[i])@ == (Target {
                        name: lowercase(given[given.len() - 1 - i]@.name),
                        alias: lowercase(given[given.len() - 1 - i]@.alias),
                        ..given[given.len() - 1 - i]@
                    }),
            decreases executors.len(),
        {
            let executor = executors.pop().unwrap();
            cleaned.push(executor.clean_up_name());
        }
        let mut all: Vec<Executor> = Vec::new();
        while cleaned.len() > 0
            invariant
                all.len() + cleaned.len() == given.len(),
                forall|i: int|
                    0 <= i < cleaned.len() ==> (#[trigger] cleaned[i])@ == (Target {
                        name: lowercase(given[given.len() - 1 - i]@.name),
                        alias: lowercase(given[given.len() - 1 - i]@.alias),
                        ..given[given.len() - 1 - i]@
                    }),
                forall|i: int|
                    0 <= i < all.len() ==> (#[trigger] all[i])@ == (Target {
                        name: lowercase(given[i]@.name),
                        alias: lowercase(given[i]@.alias),
                        ..given[i]@
                    }),
            decreases cleaned.len(),
        {
            let executor = cleaned.pop().unwrap();
            all.push(executor);
        }
        let all = Executors(all);
        assert(all@ =~= Seq::new(
            given.len() as nat,
            |i: int|
                Target {
                    name: lowercase(given[i]@.name),
                    alias: lowercase(given[i]@.alias),
                    ..given[i]@
                },
        ));
        all
    }

    /// The targets.
    pub fn executors(&self) -> (executors: &Vec<Executor>)
        ensures
            self@ == Seq::new(executors.len() as nat, |i: int| executors[i]@),
    {
        &self.0
    }

    /// The names of all the targets, in their order.
    #[must_use]
    pub fn list_targets(&self) -> (names: Vec<&String>)
        ensures
            names.len() == self@.len(),
            forall|i: int| 0 <= i < names.len() ==> (#[trigger] names[i])@ == self@[i].name,
    {
        let mut names: Vec<&String> = Vec::new();
        let mut i: usize = 0;
        while i < self.0.len()
            invariant
                i <= self.0.len(),
                names.len() == i,
                forall|j: int| 0 <= j < i ==> (#[trigger] names[j])@ == self.0[j].name@,
            decreases self.0.len() - i,
        {
            names.push(&self.0[i].name);
            i += 1;
        }
        names
    }

    /// The target that `key` stands for, compared as it is: the first one
    /// of that name, or, where there is none, the first one of that alias.
    pub fn find_exact(&self, key: &str) -> (found: Option<&Executor>)
        ensures
            match target_index(self@, key@) {
                Some(i) => found matches Some(executor) && executor@ == self@[i],
                None => found is None,
            },
    {
        let wanted = key.to_owned();
        let mut i: usize = 0;
        while i < self.0.len()
            invariant
                i <= self.0.len(),
                wanted@ == key@,
                first_named(self@, key@, 0) == first_named(self@, key@, i as int),
            decreases self.0.len() - i,
        {
            assert(self@[i as int] == self.0[i as int]@);
            if self.0[i].name == wanted {
                return Some(&self.0[i]);
            }
            i += 1;
        }
        let mut i: usize = 0;
        while i < self.0.len()
            invariant
                i <= self.0.len(),
                wanted@ == key@,
                first_named(self@, key@, 0) is None,
                first_aliased(self@, key@, 0) == first_aliased(self@, key@, i as int),
            decreases self.0.len() - i,
        {
            assert(self@[i as int] == self.0[i as int]@);
            if self.0[i].alias == wanted {
                return Some(&self.0[i]);
            }
            i += 1;
        }
        None
    }

    /// The target that `name` stands for, whatever the case of its letters:
    /// the first one whose name is `name` in lowercase, or, where there is
    /// none, the first one whose alias is.
    #[must_use]
    pub fn find(&self, name: &str) -> (found: Option<&Executor>)
        ensures
            match target_index(self@, lowercase(name@)) {
                Some(i) => found matches Some(executor) && executor@ == self@[i],
                None => found is None,
            },
    {
        let lower_case_name = name.to_lowercase();
        self.find_exact(lower_case_name.as_str())
    }
}

} // verus!
