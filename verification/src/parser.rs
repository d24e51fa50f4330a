//! The formats in which a target answers a request for suggestions.

use vstd::prelude::*;

verus! {

/// How to read the answer of a target's suggestion service.
#[derive(Clone, Copy, Debug, PartialEq, Eq, Structural)]
pub enum Parser {
    /// An array of the query and an array of phrases.
    Google,
    /// An array of objects with a `phrase` each.
    Duck,
    /// The target has no suggestion service.
    Nothing,
}

} // verus!
