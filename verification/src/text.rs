//! Characters and strings as sequences of Unicode scalar values.

use crate::navigation::{
    lemma_run_end, lemma_run_start_before, run_end, run_start_before, scan_back_before,
    scan_forward,
};
use vstd::prelude::*;

verus! {

/// Whether `c` has the Unicode `White_Space` property.
pub open spec fn is_space(c: char) -> bool {
    let n = c as u32;
    ||| 0x09 <= n <= 0x0D
    ||| n == 0x20
    ||| n == 0x85
    ||| n == 0xA0
    ||| n == 0x1680
    ||| 0x2000 <= n <= 0x200A
    ||| n == 0x2028
    ||| n == 0x2029
    ||| n == 0x202F
    ||| n == 0x205F
    ||| n == 0x3000
}

/// Tests a character for the Unicode `White_Space` property.
pub fn is_whitespace(c: char) -> (b: bool)
    ensures
        b == is_space(c),
{
    let n: u32 = c as u32;
    (0x09 <= n && n <= 0x0D) || n == 0x20 || n == 0x85 || n == 0xA0 || n == 0x1680 || (0x2000 <= n
        && n <= 0x200A) || n == 0x2028 || n == 0x2029 || n == 0x202F || n == 0x205F || n == 0x3000
}

/// The texts of a list of character vectors.
pub open spec fn texts(list: Seq<Vec<char>>) -> Seq<Seq<char>> {
    Seq::new(list.len(), |i: int| list[i]@)
}

/// `String::push` of the standard library: the string grows by exactly the
/// given character, at its end. Nothing else about the call is assumed.
pub assume_specification[ String::push ](s: &mut String, c: char)
    ensures
        final(s)@ == old(s)@.push(c),
;

/// The lowercase form of a text, as `str::to_lowercase` of the standard
/// library gives it: each character replaced by its Unicode lowercase
/// mapping, which may be several characters, a capital sigma by the final
/// form where it ends a word.
pub uninterp spec fn lowercase(text: Seq<char>) -> Seq<char>;

/// `str::to_lowercase` of the standard library: the result depends on the
/// characters of the text alone, and `lowercase` is the name for it.
pub assume_specification[ str::to_lowercase ](text: &str) -> (lower: String)
    ensures
        lower@ == lowercase(text@),
;

/// The characters of `s`, in order.
pub fn chars_of(s: &str) -> (v: Vec<char>)
    ensures
        v@ == s@,
{
    let mut v: Vec<char> = Vec::new();
    for c in it: s.chars()
        invariant
            v@ == it.seq().subrange(0, it.index() as int),
    {
        v.push(c);
    }
    v
}

/// The characters of `data` in `[from, to)`.
pub fn copy_range(data: &Vec<char>, from: usize, to: usize) -> (copy: Vec<char>)
    requires
        from <= to <= data.len(),
    ensures
        copy@ == data@.subrange(from as int, to as int),
{
    let mut copy: Vec<char> = Vec::new();
    let mut i: usize = from;
    while i < to
        invariant
            from <= i <= to <= data.len(),
            copy@ == data@.subrange(from as int, i as int),
        decreases to - i,
    {
        copy.push(data[i]);
        i += 1;
    }
    copy
}

/// The string made of `chars[from..to]`.
pub fn string_of(chars: &Vec<char>, from: usize, to: usize) -> (s: String)
    requires
        from <= to <= chars.len(),
    ensures
        s@ == chars@.subrange(from as int, to as int),
{
    let mut s = String::new();
    let mut i: usize = from;
    while i < to
        invariant
            from <= i <= to <= chars.len(),
            s@ == chars@.subrange(from as int, i as int),
        decreases to - i,
    {
        s.push(chars[i]);
        i += 1;
    }
    s
}

/// Whether `candidate` starts with `data[start..end]`.
pub fn starts_with(candidate: &Vec<char>, data: &Vec<char>, start: usize, end: usize) -> (b: bool)
    requires
        start <= end <= data.len(),
    ensures
        b == data@.subrange(start as int, end as int).is_prefix_of(candidate@),
{
    let ghost word = data@.subrange(start as int, end as int);
    let count = end - start;
    if candidate.len() < count {
        return false;
    }
    let mut i: usize = 0;
    while i < count
        invariant
            i <= count <= candidate.len(),
            count == end - start,
            start <= end <= data.len(),
            word == data@.subrange(start as int, end as int),
            forall|j: int| 0 <= j < i ==> candidate@[j] == word[j],
        decreases count - i,
    {
        if candidate[i] != data[start + i] {
            assert(candidate@[i as int] != word[i as int]);
            assert(candidate@.subrange(0, word.len() as int)[i as int] != word[i as int]);
            return false;
        }
        i += 1;
    }
    assert(candidate@.subrange(0, word.len() as int) =~= word);
    true
}

/// A text without the whitespace at its start and at its end.
pub open spec fn trimmed(text: Seq<char>) -> Seq<char> {
    let start = run_end(text, 0, true);
    let end = run_start_before(text, text.len() as int, true);
    if start < end {
        text.subrange(start, end)
    } else {
        Seq::empty()
    }
}

/// The texts of `parts` one after the other, with `separator` between each
/// two of them.
pub open spec fn joined(parts: Seq<Seq<char>>, separator: Seq<char>) -> Seq<char>
    decreases parts.len(),
{
    if parts.len() == 0 {
        Seq::empty()
    } else if parts.len() == 1 {
        parts[0]
    } else {
        joined(parts.drop_last(), separator) + separator + parts.last()
    }
}

/// `text` without the whitespace at its start and at its end.
pub fn trim(text: &str) -> (kept: String)
    ensures
        kept@ == trimmed(text@),
{
    let chars = chars_of(text);
    let start = scan_forward(&chars, 0, true);
    let end = scan_back_before(&chars, chars.len(), true);
    proof {
        lemma_run_end(chars@, 0, true);
        lemma_run_start_before(chars@, chars.len() as int, true);
    }
    if start < end {
        string_of(&chars, start, end)
    } else {
        String::new()
    }
}

/// Whether two strings hold the same characters.
pub fn same(a: &str, b: &str) -> (equal: bool)
    ensures
        equal == (a@ == b@),
{
    let a = a.to_owned();
    let b = b.to_owned();
    a == b
}

/// Appends the characters of `text` to `out`.
pub fn push_str(out: &mut String, text: &str)
    ensures
        final(out)@ == old(out)@ + text@,
{
    let chars = chars_of(text);
    let ghost before = out@;
    let mut i: usize = 0;
    while i < chars.len()
        invariant
            i <= chars.len(),
            out@ == before + chars@.subrange(0, i as int),
        decreases chars.len() - i,
    {
        out.push(chars[i]);
        i += 1;
    }
    assert(chars@.subrange(0, chars.len() as int) == chars@);
}

/// The strings of `parts[from..]` one after the other, with `separator`
/// between each two of them.
pub fn join(parts: &Vec<String>, from: usize, separator: &str) -> (whole: String)
    requires
        from <= parts.len(),
    ensures
        whole@ == joined(parts.deep_view().subrange(from as int, parts.len() as int), separator@),
{
    let mut whole = String::new();
    let mut i: usize = from;
    let ghost texts = parts.deep_view();
    while i < parts.len()
        invariant
            from <= i <= parts.len(),
            texts == parts.deep_view(),
            whole@ == joined(texts.subrange(from as int, i as int), separator@),
        decreases parts.len() - i,
    {
        let ghost done = texts.subrange(from as int, i as int);
        let ghost next = texts.subrange(from as int, i + 1);
        assert(next.drop_last() == done);
        assert(next.last() == parts[i as int]@);
        if i > from {
            push_str(&mut whole, separator);
        }
        push_str(&mut whole, parts[i].as_str());
        i += 1;
    }
    whole
}

} // verus!
