//! The answers of suggestion services, as they arrive.

use crate::error::Error;
use vstd::prelude::*;

verus! {

/// One element of the answer of a service that sends the query back with
/// its suggestions.
#[derive(Debug, PartialEq)]
pub enum Item {
    /// The query that was asked.
    Query(String),
    /// The suggestions for it.
    Suggestions(Vec<String>),
}

/// The whole answer of such a service.
#[derive(Debug, PartialEq)]
pub struct Json(pub Vec<Item>);

/// The suggestions in an answer of the first kind of service: the answer
/// itself, as the one suggestion.
pub fn parse_google(result: String) -> (parsed: Result<Vec<String>, Error>)
    ensures
        parsed matches Ok(suggestions) && suggestions@ == seq![result],
{
    let mut suggestions: Vec<String> = Vec::new();
    suggestions.push(result);
    Ok(suggestions)
}

/// The suggestions in an answer of the second kind of service: the answer
/// itself, as the one suggestion.
pub fn parse_duck(result: String) -> (parsed: Result<Vec<String>, Error>)
    ensures
        parsed matches Ok(suggestions) && suggestions@ == seq![result],
{
    let mut suggestions: Vec<String> = Vec::new();
    suggestions.push(result);
    Ok(suggestions)
}

} // verus!
