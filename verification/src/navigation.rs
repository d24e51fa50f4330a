//! Word boundaries in a line of text.
//!
//! A word is a maximal run of characters that are not whitespace. All
//! functions take a position in `[0, length]` and return one.

use crate::text::{is_space, is_whitespace};
use vstd::prelude::*;

verus! {

/// Where the run that starts at `from` ends: the first index at or after
/// `from` that is past the text or whose character is whitespace when
/// `space` is false, not whitespace when `space` is true.
pub open spec fn run_end(text: Seq<char>, from: int, space: bool) -> int
    decreases text.len() - from,
{
    if 0 <= from < text.len() && is_space(text[from]) == space {
        run_end(text, from + 1, space)
    } else {
        from
    }
}

/// Walks back from `from` while the character *at* the index belongs to the
/// run, and stops at index 0 without looking at it.
pub open spec fn run_start_at(text: Seq<char>, from: int, space: bool) -> int
    decreases from,
{
    if 0 < from < text.len() && is_space(text[from]) == space {
        run_start_at(text, from - 1, space)
    } else {
        from
    }
}

/// Walks back from `from` while the character *before* the index belongs to
/// the run: the start of the run that ends just before `from`.
pub open spec fn run_start_before(text: Seq<char>, from: int, space: bool) -> int
    decreases from,
{
    if 0 < from <= text.len() && is_space(text[from - 1]) == space {
        run_start_before(text, from - 1, space)
    } else {
        from
    }
}

/// The start of the next word: past the rest of the word under `position`,
/// then past the whitespace that follows it.
pub open spec fn next_word_index(text: Seq<char>, position: int) -> int {
    run_end(text, run_end(text, position, false), true)
}

/// The start of the word before `position`: back over the whitespace just
/// before it, then to the start of the word before that whitespace.
pub open spec fn previous_word_index(text: Seq<char>, position: int) -> int {
    if position <= 0 {
        position
    } else {
        run_start_before(text, run_start_at(text, position - 1, true), false)
    }
}

/// The end of the word before the one at `position`: back over the word that
/// ends before `position`, then over the whitespace before it.
pub open spec fn previous_word_end_index(text: Seq<char>, position: int) -> int {
    if position <= 0 {
        position
    } else {
        run_start_before(text, run_start_at(text, position - 1, false), true)
    }
}

/// `run_end` stops inside the text, everything it passed belongs to the run,
/// and what it stopped at does not.
pub proof fn lemma_run_end(text: Seq<char>, from: int, space: bool)
    requires
        0 <= from <= text.len(),
    ensures
        from <= run_end(text, from, space) <= text.len(),
        forall|i: int| from <= i < run_end(text, from, space) ==> is_space(#[trigger] text[i]) == space,
        run_end(text, from, space) < text.len() ==> is_space(text[run_end(text, from, space)])
            != space,
    decreases text.len() - from,
{
    if from < text.len() && is_space(text[from]) == space {
        lemma_run_end(text, from + 1, space);
    }
}

/// `run_start_at` stays in `[0, from]`; everything it passed belongs to the
/// run, and it stopped at 0 or at a character that does not.
pub proof fn lemma_run_start_at(text: Seq<char>, from: int, space: bool)
    requires
        0 <= from < text.len(),
    ensures
        0 <= run_start_at(text, from, space) <= from,
        forall|i: int|
            run_start_at(text, from, space) < i <= from ==> is_space(#[trigger] text[i]) == space,
        run_start_at(text, from, space) > 0 ==> is_space(text[run_start_at(text, from, space)])
            != space,
    decreases from,
{
    if 0 < from && is_space(text[from]) == space {
        lemma_run_start_at(text, from - 1, space);
    }
}

/// `run_start_before` stays in `[0, from]`; everything it passed belongs to
/// the run, and the character before where it stopped does not.
pub proof fn lemma_run_start_before(text: Seq<char>, from: int, space: bool)
    requires
        0 <= from <= text.len(),
    ensures
        0 <= run_start_before(text, from, space) <= from,
        forall|i: int|
            run_start_before(text, from, space) <= i < from ==> is_space(#[trigger] text[i])
                == space,
        run_start_before(text, from, space) > 0 ==> is_space(
            text[run_start_before(text, from, space) - 1],
        ) != space,
    decreases from,
{
    if 0 < from && is_space(text[from - 1]) == space {
        lemma_run_start_before(text, from - 1, space);
    }
}

/// The three word boundaries of a position in the text lie in the text, the
/// next one at or after the position and the previous ones at or before it.
pub proof fn lemma_word_bounds(text: Seq<char>, position: int)
    requires
        0 <= position <= text.len(),
    ensures
        position <= next_word_index(text, position) <= text.len(),
        position < text.len() ==> position < next_word_index(text, position),
        0 <= previous_word_index(text, position) <= position,
        0 <= previous_word_end_index(text, position) <= position,
        position > 0 ==> previous_word_index(text, position) < position,
        position > 0 ==> previous_word_end_index(text, position) < position,
{
    lemma_run_end(text, position, false);
    lemma_run_end(text, run_end(text, position, false), true);
    if position > 0 {
        lemma_run_start_at(text, position - 1, true);
        lemma_run_start_before(text, run_start_at(text, position - 1, true), false);
        lemma_run_start_at(text, position - 1, false);
        lemma_run_start_before(text, run_start_at(text, position - 1, false), true);
    }
}

/// At the end of the text, and past it, there is no next word:
/// `next_word_index` returns the position it was given, however often it is
/// applied.
pub proof fn lemma_next_word_at_end(text: Seq<char>, position: int)
    requires
        position >= text.len(),
    ensures
        next_word_index(text, position) == position,
        next_word_index(text, next_word_index(text, position)) == position,
{
}

/// Going to the next word and back to the previous one need not return to
/// where one started: in `"ab"`, from position 1 the next word is at 2, and
/// the word before 2 starts at 0.
pub proof fn lemma_previous_word_is_no_inverse()
    ensures
        exists|text: Seq<char>, position: int|
            0 <= position <= text.len() && #[trigger] previous_word_index(
                text,
                next_word_index(text, position),
            ) != position,
{
    let text = seq!['a', 'b'];
    reveal_with_fuel(run_end, 4);
    reveal_with_fuel(run_start_at, 4);
    reveal_with_fuel(run_start_before, 4);
    assert(next_word_index(text, 1) == 2);
    assert(previous_word_index(text, 2) == 0);
    assert(previous_word_index(text, next_word_index(text, 1)) != 1);
}

/// The end of the run of whitespace (`space`) or of other characters that
/// starts at `from`.
pub fn scan_forward(data: &Vec<char>, from: usize, space: bool) -> (index: usize)
    ensures
        index == run_end(data@, from as int, space),
{
    let end = data.len();
    let mut index = from;
    while index < end && is_whitespace(data[index]) == space
        invariant
            end == data.len(),
            run_end(data@, index as int, space) == run_end(data@, from as int, space),
        decreases end - index,
    {
        index += 1;
    }
    index
}

/// Walks back while the character at the index belongs to the run.
pub fn scan_back_at(data: &Vec<char>, from: usize, space: bool) -> (index: usize)
    requires
        from < data.len(),
    ensures
        index == run_start_at(data@, from as int, space),
{
    let mut index = from;
    while index > 0 && is_whitespace(data[index]) == space
        invariant
            index <= from < data.len(),
            run_start_at(data@, index as int, space) == run_start_at(data@, from as int, space),
        decreases index,
    {
        index -= 1;
    }
    index
}

/// Walks back while the character before the index belongs to the run.
pub fn scan_back_before(data: &Vec<char>, from: usize, space: bool) -> (index: usize)
    requires
        from <= data.len(),
    ensures
        index == run_start_before(data@, from as int, space),
{
    let mut index = from;
    while index > 0 && is_whitespace(data[index - 1]) == space
        invariant
            index <= from <= data.len(),
            run_start_before(data@, index as int, space) == run_start_before(
                data@,
                from as int,
                space,
            ),
        decreases index,
    {
        index -= 1;
    }
    index
}

/// The start of the next word after `position`; `position` itself at or past
/// the end of `data`.
pub fn next_word(position: usize, data: &Vec<char>) -> (index: usize)
    ensures
        index == next_word_index(data@, position as int),
        position <= data.len() ==> position <= index <= data.len(),
        position >= data.len() ==> index == position,
{
    proof {
        if position <= data.len() {
            lemma_word_bounds(data@, position as int);
        }
    }
    let word_end = scan_forward(data, position, false);
    scan_forward(data, word_end, true)
}

/// The start of the word before `position`; 0 at position 0.
pub fn previous_word(position: usize, data: &Vec<char>) -> (index: usize)
    requires
        position <= data.len(),
    ensures
        index == previous_word_index(data@, position as int),
        index <= position,
        position > 0 ==> index < position,
{
    proof {
        lemma_word_bounds(data@, position as int);
    }
    if position == 0 {
        position
    } else {
        let index = scan_back_at(data, position - 1, true);
        proof {
            lemma_run_start_at(data@, position - 1, true);
        }
        scan_back_before(data, index, false)
    }
}

/// The end of the word before the one that ends at `position`; 0 at
/// position 0.
pub fn previous_word_end(position: usize, data: &Vec<char>) -> (index: usize)
    requires
        position <= data.len(),
    ensures
        index == previous_word_end_index(data@, position as int),
        index <= position,
        position > 0 ==> index < position,
{
    proof {
        lemma_word_bounds(data@, position as int);
    }
    if position == 0 {
        position
    } else {
        let index = scan_back_at(data, position - 1, false);
        proof {
            lemma_run_start_at(data@, position - 1, false);
        }
        scan_back_before(data, index, true)
    }
}

} // verus!
