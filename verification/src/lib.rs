//! The engine of a terminal prompt that sends a query to a named target.
//!
//! The user types the name of a target and then a query. While they type,
//! the prompt suggests how the word under the cursor may go on, offers
//! candidates to choose from, and keeps the line in view on a terminal of
//! any width. Every function here is verified against a contract over the
//! text as a sequence of characters; reading keys, painting and the targets'
//! own work are left to the program around the library.
//!
//! - [`text`] and [`navigation`]: characters, whitespace and word boundaries.
//! - [`buffer`], [`suggester`], [`completions`]: the line, the inline
//!   suggestion and the list of candidates.
//! - [`context`] and [`session`]: the three together, and the two modes of
//!   the prompt with the transitions between them.
//! - [`action`], [`terminal`] and [`screen`]: from keys to actions, from
//!   the state of the prompt to the commands that paint it, and from the
//!   commands to what the screen then shows.
//! - [`executors`], [`parser`], [`history`], [`completer`]: the targets,
//!   the record of the queries sent to them, and the answers of their
//!   suggestion services.
//! - [`cli`] and [`error`]: the command line.

pub mod action;
pub mod buffer;
pub mod cli;
pub mod completer;
pub mod completions;
pub mod context;
pub mod error;
pub mod executors;
pub mod history;
pub mod navigation;
pub mod parser;
pub mod screen;
pub mod session;
pub mod suggester;
pub mod terminal;
pub mod text;
