//! The queries that were sent to a target before: how the record of them
//! is kept, and which of them resemble what is being typed.

use crate::text::{join, joined, push_str, same};
use fuzzy_matcher::skim::SkimMatcherV2;
use fuzzy_matcher::FuzzyMatcher;
use vstd::prelude::*;

verus! {

/// The lines other than `query`, in their order.
pub open spec fn others(lines: Seq<Seq<char>>, query: Seq<char>) -> Seq<Seq<char>>
    decreases lines.len(),
{
    if lines.len() == 0 {
        Seq::empty()
    } else if lines.last() == query {
        others(lines.drop_last(), query)
    } else {
        others(lines.drop_last(), query).push(lines.last())
    }
}

/// The record of queries once `query` was sent: `query` in the first line,
/// then the lines of the record before that are not `query`, and a line
/// feed behind the last of them.
pub open spec fn record(lines: Seq<Seq<char>>, query: Seq<char>) -> Seq<char> {
    query + seq!['\n'] + joined(others(lines, query), seq!['\n']) + seq!['\n']
}

/// The lines of a record that are not `query`.
pub fn forget(lines: &Vec<String>, query: &str) -> (kept: Vec<String>)
    ensures
        kept.deep_view() == others(lines.deep_view(), query@),
{
    let mut kept: Vec<String> = Vec::new();
    let ghost all = lines.deep_view();
    let mut i: usize = 0;
    assert(kept.deep_view() =~= others(all.subrange(0, 0), query@));
    while i < lines.len()
        invariant
            i <= lines.len(),
            all == lines.deep_view(),
            kept.deep_view() == others(all.subrange(0, i as int), query@),
        decreases lines.len() - i,
    {
        let ghost before = kept.deep_view();
        let ghost next = all.subrange(0, i + 1);
        assert(next.drop_last() == all.subrange(0, i as int));
        assert(next.last() == lines[i as int]@);
        if !same(lines[i].as_str(), query) {
            kept.push(lines[i].clone());
            assert(kept.deep_view() =~= before.push(lines[i as int]@));
        }
        i += 1;
    }
    assert(all.subrange(0, lines.len() as int) == all);
    kept
}

/// The text of the record of queries once `query` was sent, `lines` being
/// the lines of the record before.
pub fn remember(lines: &Vec<String>, query: &str) -> (text: String)
    ensures
        text@ == record(lines.deep_view(), query@),
{
    let kept = forget(lines, query);
    let history = join(&kept, 0, "\n");
    proof {
        reveal_strlit("\n");
        assert("\n"@ =~= seq!['\n']);
        assert(kept.deep_view().subrange(0, kept.len() as int) == kept.deep_view());
    }
    let mut text = String::new();
    push_str(&mut text, query);
    text.push('\n');
    push_str(&mut text, history.as_str());
    text.push('\n');
    assert(text@ =~= record(lines.deep_view(), query@));
    text
}

/// The longest line and the longest query, in characters, that are scored
/// against each other.
pub const MATCH_LIMIT: usize = 65536;

/// The score that the skim matcher of `fuzzy_matcher`, in its second
/// version and with the settings it starts with, gives to `choice` for
/// `pattern`; `None` where the characters of `pattern` do not occur in
/// `choice` in their order.
pub uninterp spec fn skim_score(choice: Seq<char>, pattern: Seq<char>) -> Option<i64>;

/// `SkimMatcherV2::fuzzy_match` of `fuzzy_matcher`, on a matcher made for
/// this one call: the score depends on the two texts alone, and `skim_score`
/// is the name for it. The matcher adds up a bounded amount for each
/// character in 32 bits, so the texts are kept short enough for the sums.
#[verifier::external_body]
fn fuzzy_match(choice: &str, pattern: &str) -> (score: Option<i64>)
    requires
        choice@.len() <= MATCH_LIMIT,
        pattern@.len() <= MATCH_LIMIT,
    ensures
        score == skim_score(choice@, pattern@),
{
    SkimMatcherV2::default().fuzzy_match(choice, pattern)
}

/// What a scored line is: its score and its text.
pub struct Scored {
    pub score: i64,
    pub text: Seq<char>,
}

/// The score of `line` for `query`, where both are short enough to be
/// scored and the line matches.
pub open spec fn score_of(line: Seq<char>, query: Seq<char>) -> Option<i64> {
    if line.len() <= MATCH_LIMIT && query.len() <= MATCH_LIMIT {
        skim_score(line, query)
    } else {
        None
    }
}

/// `sorted` with `item` put in behind the last item whose score is not
/// greater than its own.
pub open spec fn inserted(sorted: Seq<Scored>, item: Scored) -> Seq<Scored>
    decreases sorted.len(),
{
    if sorted.len() == 0 {
        seq![item]
    } else if sorted.last().score <= item.score {
        sorted.push(item)
    } else {
        inserted(sorted.drop_last(), item).push(sorted.last())
    }
}

/// The lines that match `query`, each with its score, from the lowest score
/// to the highest, and in the order of `lines` where the scores are equal.
pub open spec fn ranked(lines: Seq<Seq<char>>, query: Seq<char>) -> Seq<Scored>
    decreases lines.len(),
{
    if lines.len() == 0 {
        Seq::empty()
    } else {
        match score_of(lines.last(), query) {
            Some(score) => inserted(
                ranked(lines.drop_last(), query),
                Scored { score, text: lines.last() },
            ),
            None => ranked(lines.drop_last(), query),
        }
    }
}

/// Whether the scores do not fall from one item to the next.
pub open spec fn ascending(items: Seq<Scored>) -> bool {
    forall|i: int, j: int| 0 <= i < j < items.len() ==> items[i].score <= items[j].score
}

/// The texts of the first `count` items.
pub open spec fn first_texts(items: Seq<Scored>, count: int) -> Seq<Seq<char>> {
    Seq::new(
        (if count < items.len() {
            count
        } else {
            items.len() as int
        }) as nat,
        |i: int| items[i].text,
    )
}

/// Putting an item into a list with ascending scores makes the list one
/// longer, keeps the scores ascending, and adds this item to what the list
/// holds, nothing else.
pub proof fn lemma_inserted(sorted: Seq<Scored>, item: Scored)
    requires
        ascending(sorted),
    ensures
        inserted(sorted, item).len() == sorted.len() + 1,
        ascending(inserted(sorted, item)),
        inserted(sorted, item).to_multiset() == sorted.to_multiset().insert(item),
    decreases sorted.len(),
{
    broadcast use vstd::seq_lib::group_to_multiset_ensures;

    if sorted.len() == 0 {
        assert(sorted =~= Seq::empty());
    } else if sorted.last().score <= item.score {
    } else {
        let front = sorted.drop_last();
        lemma_inserted(front, item);
        let placed = inserted(front, item);
        assert(sorted =~= front.push(sorted.last()));
        assert forall|i: int| 0 <= i < placed.len() implies (#[trigger] placed[i]).score
            <= sorted.last().score by {
            assert(placed.to_multiset().count(placed[i]) > 0);
            if placed[i] != item {
                assert(front.to_multiset().count(placed[i]) > 0);
                let k = choose|k: int| 0 <= k < front.len() && front[k] == placed[i];
                assert(sorted[k] == front[k]);
            }
        }
        assert(placed.push(sorted.last()).to_multiset() =~= sorted.to_multiset().insert(item));
    }
}

/// The ranking has ascending scores, and it holds each line that matches
/// once for each time the line occurs, with its score, and nothing else.
pub proof fn lemma_ranked(lines: Seq<Seq<char>>, query: Seq<char>)
    ensures
        ascending(ranked(lines, query)),
        ranked(lines, query).len() <= lines.len(),
        forall|item: Scored| #[trigger]
            ranked(lines, query).to_multiset().count(item) > 0 ==> score_of(item.text, query)
                == Some(item.score) && lines.contains(item.text),
        forall|i: int|
            0 <= i < lines.len() && score_of(#[trigger] lines[i], query) is Some ==> ranked(
                lines,
                query,
            ).to_multiset().count(
                Scored { score: score_of(lines[i], query)->0, text: lines[i] },
            ) > 0,
    decreases lines.len(),
{
    broadcast use vstd::seq_lib::group_to_multiset_ensures;

    if lines.len() > 0 {
        let front = lines.drop_last();
        lemma_ranked(front, query);
        assert(forall|i: int| 0 <= i < front.len() ==> front[i] == lines[i]);
        match score_of(lines.last(), query) {
            Some(score) => {
                lemma_inserted(ranked(front, query), Scored { score, text: lines.last() });
            },
            None => {},
        }
        assert forall|item: Scored| #[trigger]
            ranked(lines, query).to_multiset().count(item) > 0 implies score_of(item.text, query)
            == Some(item.score) && lines.contains(item.text) by {
            if ranked(front, query).to_multiset().count(item) > 0 {
                let k = choose|k: int| 0 <= k < front.len() && front[k] == item.text;
                assert(lines[k] == item.text);
            } else {
                assert(lines[lines.len() - 1] == item.text);
            }
        }
    }
}

/// Where the exec code puts an item is where `inserted` puts it: behind
/// the last item whose score is not greater, all behind that being greater.
proof fn lemma_inserted_at(sorted: Seq<Scored>, item: Scored, position: int)
    requires
        0 <= position <= sorted.len(),
        position > 0 ==> sorted[position - 1].score <= item.score,
        forall|i: int| position <= i < sorted.len() ==> sorted[i].score > item.score,
    ensures
        inserted(sorted, item) == sorted.insert(position, item),
    decreases sorted.len(),
{
    if sorted.len() == 0 {
        assert(sorted.insert(position, item) =~= seq![item]);
    } else if position == sorted.len() {
        assert(sorted.insert(position, item) =~= sorted.push(item));
    } else {
        lemma_inserted_at(sorted.drop_last(), item, position);
        assert(sorted.insert(position, item) =~= sorted.drop_last().insert(position, item).push(
            sorted.last(),
        ));
    }
}

/// A line of the history with its score for a query.
#[derive(Debug)]
pub struct FuzzyMatch(i64, String);

impl View for FuzzyMatch {
    type V = Scored;

    closed spec fn view(&self) -> Scored {
        Scored { score: self.0, text: self.1@ }
    }
}

/// What a list of scored lines is.
pub open spec fn scored(matches: Seq<FuzzyMatch>) -> Seq<Scored> {
    Seq::new(matches.len(), |i: int| matches[i]@)
}

impl FuzzyMatch {
    /// `choice` with its score for `pattern`, if it matches and both are
    /// short enough to be scored.
    pub fn new(choice: String, pattern: &str) -> (scored: Option<FuzzyMatch>)
        ensures
            match score_of(choice@, pattern@) {
                Some(score) => scored matches Some(found) && found@ == (Scored {
                    score,
                    text: choice@,
                }),
                None => scored is None,
            },
    {
        if choice.as_str().unicode_len() > MATCH_LIMIT || pattern.unicode_len() > MATCH_LIMIT {
            return None;
        }
        match fuzzy_match(choice.as_str(), pattern) {
            Some(score) => Some(FuzzyMatch(score, choice)),
            None => None,
        }
    }

    /// The score.
    pub fn score(&self) -> (score: i64)
        ensures
            score == self@.score,
    {
        self.0
    }

    /// The line.
    pub fn matched(self) -> (line: String)
        ensures
            line@ == self@.text,
    {
        self.1
    }
}

/// Up to `count` of `lines` that resemble `query`: the lines that match it,
/// those with the lowest score first.
pub fn fuzzy_history(lines: Vec<String>, query: &str, count: usize) -> (found: Vec<String>)
    ensures
        found.deep_view() == first_texts(ranked(lines.deep_view(), query@), count as int),
{
    let mut completions: Vec<FuzzyMatch> = Vec::new();
    let ghost all = lines.deep_view();
    let mut i: usize = 0;
    assert(scored(completions@) =~= ranked(all.subrange(0, 0), query@));
    while i < lines.len()
        invariant
            i <= lines.len(),
            all == lines.deep_view(),
            scored(completions@) == ranked(all.subrange(0, i as int), query@),
        decreases lines.len() - i,
    {
        let ghost before = scored(completions@);
        let ghost next = all.subrange(0, i + 1);
        assert(next.drop_last() == all.subrange(0, i as int));
        assert(next.last() == lines[i as int]@);
        if let Some(found) = FuzzyMatch::new(lines[i].clone(), query) {
            let mut position = completions.len();
            while position > 0 && completions[position - 1].score() > found.score()
                invariant
                    position <= completions.len(),
                    scored(completions@) == before,
                    forall|k: int|
                        position <= k < completions.len() ==> (#[trigger] completions[k])@.score
                            > found@.score,
                decreases position,
            {
                position -= 1;
            }
            proof {
                assert forall|k: int| position <= k < before.len() implies (#[trigger] before[k]).score
                    > found@.score by {
                    assert(before[k] == completions[k]@);
                }
                if position > 0 {
                    assert(before[position - 1] == completions[position - 1]@);
                }
                lemma_inserted_at(before, found@, position as int);
            }
            completions.insert(position, found);
            assert(scored(completions@) =~= before.insert(position as int, found@));
        }
        i += 1;
    }
    assert(all.subrange(0, lines.len() as int) == all);
    let mut found: Vec<String> = Vec::new();
    let mut i: usize = 0;
    while i < completions.len() && i < count
        invariant
            i <= completions.len(),
            i <= count,
            found.len() == i,
            forall|k: int| 0 <= k < i ==> (#[trigger] found[k])@ == completions[k]@.text,
        decreases completions.len() - i,
    {
        found.push(completions[i].1.clone());
        i += 1;
    }
    assert(found.deep_view() =~= first_texts(scored(completions@), count as int));
    found
}

} // verus!
