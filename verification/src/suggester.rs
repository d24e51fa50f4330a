//! The inline suggestion: the rest of the word being typed, taken from the
//! first candidate that starts with it.

use crate::buffer::{Buffer, Line};
use crate::navigation::{
    lemma_word_bounds, next_word, next_word_index, previous_word, previous_word_index,
};
use crate::text::{
    chars_of, copy_range, is_space, is_whitespace, starts_with, string_of, texts,
};
use vstd::prelude::*;

verus! {

/// The word that ends at the cursor.
pub open spec fn current_word(line: Line) -> Seq<char> {
    line.text.subrange(previous_word_index(line.text, line.cursor), line.cursor)
}

/// The index of the first candidate at or after `from` that starts with
/// `word`.
pub open spec fn first_match(candidates: Seq<Seq<char>>, word: Seq<char>, from: int) -> Option<int>
    decreases candidates.len() - from,
{
    if from < 0 || from >= candidates.len() {
        None
    } else if word.is_prefix_of(candidates[from]) {
        Some(from)
    } else {
        first_match(candidates, word, from + 1)
    }
}

/// What the first candidate that starts with `word` has behind `word`;
/// nothing where no candidate starts with it.
pub open spec fn completion(candidates: Seq<Seq<char>>, word: Seq<char>) -> Seq<char> {
    match first_match(candidates, word, 0) {
        Some(i) => candidates[i].subrange(word.len() as int, candidates[i].len() as int),
        None => Seq::empty(),
    }
}

/// What a suggester is: the candidates in the order of their source, the
/// suggestion, and the length of the text for which it was last computed.
pub struct Suggestion {
    pub candidates: Seq<Seq<char>>,
    pub text: Seq<char>,
    pub seen: int,
}

impl Suggestion {
    /// Whether an update leaves the suggestion as it is: the text is empty,
    /// the cursor is not at its end, the character before the cursor is
    /// whitespace, or the text is as long as at the last computation.
    pub open spec fn keeps(self, line: Line) -> bool {
        ||| line.text.len() == 0
        ||| !line.at_end()
        ||| is_space(line.text[line.cursor - 1])
        ||| self.seen == line.text.len()
    }

    /// The suggester after an update for `line`.
    pub open spec fn update(self, line: Line) -> Suggestion {
        if self.keeps(line) {
            self
        } else {
            Suggestion {
                candidates: self.candidates,
                text: completion(self.candidates, current_word(line)),
                seen: line.text.len() as int,
            }
        }
    }

    /// The suggester once the whole suggestion is taken.
    pub open spec fn taken(self) -> Suggestion {
        Suggestion { candidates: self.candidates, text: Seq::empty(), seen: self.seen }
    }

    /// Where the first chunk of the suggestion ends: at the start of its
    /// second word.
    pub open spec fn chunk(self) -> int {
        next_word_index(self.text, 0)
    }

    /// The suggester once the first chunk of the suggestion is taken.
    pub open spec fn taken_next_word(self) -> Suggestion {
        Suggestion {
            candidates: self.candidates,
            text: self.text.subrange(self.chunk(), self.text.len() as int),
            seen: self.seen,
        }
    }
}

/// `first_match` finds a candidate that starts with the word and that no
/// candidate from `from` on precedes; it finds none only where there is none.
pub proof fn lemma_first_match(candidates: Seq<Seq<char>>, word: Seq<char>, from: int)
    requires
        0 <= from,
    ensures
        match first_match(candidates, word, from) {
            Some(i) => {
                &&& from <= i < candidates.len()
                &&& word.is_prefix_of(candidates[i])
                &&& forall|j: int| from <= j < i ==> !word.is_prefix_of(#[trigger] candidates[j])
            },
            None => forall|j: int|
                from <= j < candidates.len() ==> !word.is_prefix_of(#[trigger] candidates[j]),
        },
    decreases candidates.len() - from,
{
    if from < candidates.len() && !word.is_prefix_of(candidates[from]) {
        lemma_first_match(candidates, word, from + 1);
    }
}

/// A suggestion that was computed for a word is empty, or it is what some
/// candidate that starts with the word has behind it: the word and the
/// suggestion together are that candidate.
pub proof fn lemma_completion_is_suffix(candidates: Seq<Seq<char>>, word: Seq<char>)
    ensures
        completion(candidates, word).len() == 0 || exists|i: int|
            0 <= i < candidates.len() && word.is_prefix_of(#[trigger] candidates[i]) && word
                + completion(candidates, word) == candidates[i],
{
    lemma_first_match(candidates, word, 0);
    match first_match(candidates, word, 0) {
        Some(i) => {
            assert(word + completion(candidates, word) =~= candidates[i]);
        },
        None => {},
    }
}

/// After an update that computes the suggestion, the suggestion is empty or
/// it is what some candidate that starts with the word at the end of the
/// text has behind that word.
pub proof fn lemma_update_suggests_suffix(suggestion: Suggestion, line: Line)
    requires
        line.wf(),
        !suggestion.keeps(line),
    ensures
        suggestion.update(line).text.len() == 0 || exists|i: int|
            0 <= i < suggestion.candidates.len() && current_word(line).is_prefix_of(
                #[trigger] suggestion.candidates[i],
            ) && current_word(line) + suggestion.update(line).text == suggestion.candidates[i],
{
    lemma_completion_is_suffix(suggestion.candidates, current_word(line));
}

/// Computes inline suggestions from a list of candidates.
#[derive(Debug)]
pub struct Suggester {
    data: Vec<char>,
    suggestions: Vec<Vec<char>>,
    last_size: usize,
}

impl View for Suggester {
    type V = Suggestion;

    closed spec fn view(&self) -> Suggestion {
        Suggestion {
            candidates: texts(self.suggestions@),
            text: self.data@,
            seen: self.last_size as int,
        }
    }
}

/// A suggester over `suggestions`, with no suggestion yet.
pub fn new(suggestions: Vec<String>) -> (suggester: Suggester)
    ensures
        suggester@.candidates == suggestions.deep_view(),
        suggester@.text == Seq::<char>::empty(),
        suggester@.seen == 0,
{
    let mut candidates: Vec<Vec<char>> = Vec::new();
    let mut i: usize = 0;
    while i < suggestions.len()
        invariant
            i <= suggestions.len(),
            candidates.len() == i,
            forall|j: int| 0 <= j < i ==> (#[trigger] candidates@[j])@ == suggestions@[j]@,
        decreases suggestions.len() - i,
    {
        candidates.push(chars_of(suggestions[i].as_str()));
        i += 1;
    }
    assert(texts(candidates@) =~= suggestions.deep_view());
    Suggester { data: Vec::new(), suggestions: candidates, last_size: 0 }
}

/// What the first of `suggestions` that starts with `data[start..end]` has
/// behind it.
fn complete(suggestions: &Vec<Vec<char>>, data: &Vec<char>, start: usize, end: usize) -> (suffix:
    Vec<char>)
    requires
        start <= end <= data.len(),
    ensures
        suffix@ == completion(texts(suggestions@), data@.subrange(start as int, end as int)),
{
    let ghost word = data@.subrange(start as int, end as int);
    let mut i: usize = 0;
    while i < suggestions.len()
        invariant
            i <= suggestions.len(),
            start <= end <= data.len(),
            word == data@.subrange(start as int, end as int),
            first_match(texts(suggestions@), word, 0) == first_match(
                texts(suggestions@),
                word,
                i as int,
            ),
        decreases suggestions.len() - i,
    {
        assert(texts(suggestions@)[i as int] == suggestions@[i as int]@);
        if starts_with(&suggestions[i], data, start, end) {
            return copy_range(&suggestions[i], end - start, suggestions[i].len());
        }
        i += 1;
    }
    Vec::new()
}

impl Suggester {
    /// The suggestion.
    pub fn data(&self) -> (text: String)
        ensures
            text@ == self@.text,
    {
        let text = string_of(&self.data, 0, self.data.len());
        assert(self.data@.subrange(0, self.data.len() as int) == self.data@);
        text
    }

    /// The suggestion as characters.
    pub fn data_raw(&self) -> (text: &Vec<char>)
        ensures
            text@ == self@.text,
    {
        &self.data
    }

    /// Computes the suggestion anew for the word that ends at the cursor,
    /// unless the buffer is empty, the cursor is not at its end, whitespace
    /// stands before the cursor, or the text is as long as when the
    /// suggestion was last computed.
    pub fn update(&mut self, buffer: &Buffer)
        requires
            buffer.wf(),
        ensures
            final(self)@ == old(self)@.update(buffer@),
    {
        let data = buffer.data_raw();
        let position = *buffer.position();
        if position != data.len() || position == 0 || is_whitespace(data[position - 1])
            || self.last_size == data.len() {
            return ;
        }
        let start = previous_word(position, data);
        self.last_size = data.len();
        self.data = complete(&self.suggestions, data, start, position);
    }

    /// Empties the suggestion and returns what it was.
    pub fn take(&mut self) -> (taken: String)
        ensures
            taken@ == old(self)@.text,
            final(self)@ == old(self)@.taken(),
    {
        let taken = self.data();
        self.data.clear();
        taken
    }

    /// Takes the first chunk of the suggestion, up to the start of its
    /// second word, and keeps the rest as the suggestion.
    pub fn take_next_word(&mut self) -> (taken: String)
        ensures
            taken@ == old(self)@.text.subrange(0, old(self)@.chunk()),
            final(self)@ == old(self)@.taken_next_word(),
    {
        proof {
            lemma_word_bounds(self.data@, 0);
        }
        let index = next_word(0, &self.data);
        let taken = string_of(&self.data, 0, index);
        self.data = copy_range(&self.data, index, self.data.len());
        taken
    }
}

} // verus!
