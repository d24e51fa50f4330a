//! What can be wrong with a command line.

use crate::text::push_str;
use vstd::prelude::*;

verus! {

/// The ways in which a command line cannot be served.
#[derive(Debug, PartialEq, Eq)]
pub enum Error {
    /// A query was asked for and none was given.
    NoQuery,
    /// The target is not among the configured ones.
    UnknownTarget,
    /// The option is none of those that are known.
    UnknownCommand(String),
}

impl Error {
    /// What the message of this error says.
    pub open spec fn text(self) -> Seq<char> {
        match self {
            Error::NoQuery => "No query specified"@,
            Error::UnknownTarget => "Unrecognized target"@,
            Error::UnknownCommand(command) => "Unrecognized command: "@ + command@,
        }
    }

    /// The message to show for this error.
    pub fn message(&self) -> (message: String)
        ensures
            message@ == self.text(),
    {
        match self {
            Error::NoQuery => "No query specified".to_owned(),
            Error::UnknownTarget => "Unrecognized target".to_owned(),
            Error::UnknownCommand(command) => {
                let mut message = "Unrecognized command: ".to_owned();
                push_str(&mut message, command.as_str());
                message
            },
        }
    }
}

} // verus!
