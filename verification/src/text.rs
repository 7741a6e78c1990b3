//! Predicates and searches over text, stated on sequences of characters.
//!
//! File names, archive entry names and catalog titles are all compared
//! character by character; the functions here work on slices of `char` and
//! say what they compute over `Seq<char>`.

use vstd::prelude::*;
use vstd::string::{StrSliceExecFns, StringExecFns};

verus! {

/// The lower-case form of an ASCII capital letter; any other character is
/// left as it is.
pub open spec fn ascii_lower(c: char) -> char {
    if 'A' <= c && c <= 'Z' {
        ((c as u8) + 32) as char
    } else {
        c
    }
}

/// `text` with every ASCII capital letter replaced by its lower-case form.
pub open spec fn lower(text: Seq<char>) -> Seq<char> {
    Seq::new(text.len(), |i: int| ascii_lower(text[i]))
}

/// `text` ends with `suffix`.
pub open spec fn ends_with(text: Seq<char>, suffix: Seq<char>) -> bool {
    suffix.len() <= text.len() && text.subrange(text.len() - suffix.len(), text.len() as int)
        == suffix
}

/// `needle` stands in `text` at position `at`.
pub open spec fn occurs_at(text: Seq<char>, needle: Seq<char>, at: int) -> bool {
    0 <= at && at + needle.len() <= text.len() && text.subrange(at, at + needle.len()) == needle
}

/// `needle` stands somewhere in `text`.
pub open spec fn contains(text: Seq<char>, needle: Seq<char>) -> bool {
    exists|at: int| occurs_at(text, needle, at)
}

/// The position of the last `c` in `text`, if there is one.
pub open spec fn last_index_of(text: Seq<char>, c: char) -> Option<int>
    decreases text.len(),
{
    if text.len() == 0 {
        None
    } else if text.last() == c {
        Some(text.len() - 1)
    } else {
        last_index_of(text.drop_last(), c)
    }
}

/// What follows the last `c` in `text`; all of `text` where it holds no `c`.
pub open spec fn after_last(text: Seq<char>, c: char) -> Seq<char> {
    match last_index_of(text, c) {
        Some(i) => text.subrange(i + 1, text.len() as int),
        None => text,
    }
}

/// `last_index_of` finds a position that holds `c` and has no `c` behind it,
/// and finds none only where `text` holds no `c` at all.
pub proof fn lemma_last_index_of(text: Seq<char>, c: char)
    ensures
        match last_index_of(text, c) {
            Some(i) => 0 <= i < text.len() && text[i] == c && forall|j: int|
                i < j < text.len() ==> text[j] != c,
            None => forall|j: int| 0 <= j < text.len() ==> text[j] != c,
        },
    decreases text.len(),
{
    if text.len() > 0 && text.last() != c {
        let front = text.drop_last();
        lemma_last_index_of(front, c);
        assert(forall|j: int| 0 <= j < front.len() ==> front[j] == text[j]);
    }
}

/// A position that holds `c` with no `c` behind it is the one that
/// `last_index_of` finds.
pub proof fn lemma_last_index_is(text: Seq<char>, c: char, i: int)
    requires
        0 <= i < text.len(),
        text[i] == c,
        forall|j: int| i < j < text.len() ==> text[j] != c,
    ensures
        last_index_of(text, c) == Some(i),
{
    lemma_last_index_of(text, c);
}

/// The characters of a string, one by one.
pub fn to_chars(s: &str) -> (chars: Vec<char>)
    ensures
        chars@ == s@,
{
    let mut chars: Vec<char> = Vec::new();
    for c in it: s.chars()
        invariant
            it.seq() == s@,
            chars@ == it.seq().take(it.index() as int),
    {
        chars.push(c);
    }
    chars
}

/// The lower-case form of an ASCII capital letter; any other character as
/// it is.
pub fn to_ascii_lower(c: char) -> (lowered: char)
    ensures
        lowered == ascii_lower(c),
{
    if 'A' <= c && c <= 'Z' {
        ((c as u8) + 32) as char
    } else {
        c
    }
}

/// Whether two texts hold the same characters.
pub fn same_text(a: &[char], b: &[char]) -> (same: bool)
    ensures
        same == (a@ == b@),
{
    if a.len() != b.len() {
        return false;
    }
    let mut i: usize = 0;
    while i < a.len()
        invariant
            i <= a.len(),
            a.len() == b.len(),
            forall|j: int| 0 <= j < i ==> a@[j] == b@[j],
        decreases a.len() - i,
    {
        if a[i] != b[i] {
            return false;
        }
        i += 1;
    }
    assert(a@ =~= b@);
    true
}

/// Whether `text`, taken in lower case, is `target`.
pub fn lowered_equals(text: &[char], target: &[char]) -> (same: bool)
    ensures
        same == (lower(text@) == target@),
{
    if text.len() != target.len() {
        return false;
    }
    let mut i: usize = 0;
    while i < text.len()
        invariant
            i <= text.len(),
            text.len() == target.len(),
            forall|j: int| 0 <= j < i ==> lower(text@)[j] == target@[j],
        decreases text.len() - i,
    {
        if to_ascii_lower(text[i]) != target[i] {
            return false;
        }
        i += 1;
    }
    assert(lower(text@) =~= target@);
    true
}

/// Whether `needle` stands in `text` at position `at`.
pub fn matches_at(text: &[char], needle: &[char], at: usize) -> (found: bool)
    ensures
        found == occurs_at(text@, needle@, at as int),
{
    if at > text.len() || needle.len() > text.len() - at {
        return false;
    }
    let ghost window = text@.subrange(at as int, at + needle.len());
    let mut i: usize = 0;
    while i < needle.len()
        invariant
            i <= needle.len(),
            at + needle.len() <= text.len(),
            window == text@.subrange(at as int, at + needle.len()),
            forall|j: int| 0 <= j < i ==> window[j] == needle@[j],
        decreases needle.len() - i,
    {
        if text[at + i] != needle[i] {
            return false;
        }
        i += 1;
    }
    assert(window =~= needle@);
    true
}

/// Whether `text` ends with `suffix`.
pub fn has_suffix(text: &[char], suffix: &[char]) -> (found: bool)
    ensures
        found == ends_with(text@, suffix@),
{
    if suffix.len() > text.len() {
        return false;
    }
    matches_at(text, suffix, text.len() - suffix.len())
}

/// Whether `needle` stands somewhere in `text`.
pub fn has_substring(text: &[char], needle: &[char]) -> (found: bool)
    ensures
        found == contains(text@, needle@),
{
    if needle.len() > text.len() {
        return false;
    }
    let last: usize = text.len() - needle.len();
    let mut at: usize = 0;
    loop
        invariant
            at <= last,
            last == text.len() - needle.len(),
            forall|k: int| 0 <= k < at ==> !occurs_at(text@, needle@, k),
        decreases last - at,
    {
        if matches_at(text, needle, at) {
            return true;
        }
        if at == last {
            return false;
        }
        at += 1;
    }
}

/// The position of the last `c` in `text`, if there is one.
pub fn find_last(text: &[char], c: char) -> (found: Option<usize>)
    ensures
        match found {
            Some(i) => i < text.len() && last_index_of(text@, c) == Some(i as int),
            None => last_index_of(text@, c) is None,
        },
{
    let mut i: usize = text.len();
    assert(text@.take(i as int) =~= text@);
    while i > 0
        invariant
            i <= text.len(),
            last_index_of(text@, c) == last_index_of(text@.take(i as int), c),
        decreases i,
    {
        if text[i - 1] == c {
            return Some(i - 1);
        }
        assert(text@.take(i as int).drop_last() =~= text@.take(i - 1));
        i -= 1;
    }
    None
}

/// The lower-case form of an ASCII capital letter, as text.
fn lower_letter_text(c: char) -> (text: &'static str)
    requires
        'A' <= c && c <= 'Z',
    ensures
        text@ == seq![ascii_lower(c)],
{
    proof {
        reveal_strlit("a");
        reveal_strlit("b");
        reveal_strlit("c");
        reveal_strlit("d");
        reveal_strlit("e");
        reveal_strlit("f");
        reveal_strlit("g");
        reveal_strlit("h");
        reveal_strlit("i");
        reveal_strlit("j");
        reveal_strlit("k");
        reveal_strlit("l");
        reveal_strlit("m");
        reveal_strlit("n");
        reveal_strlit("o");
        reveal_strlit("p");
        reveal_strlit("q");
        reveal_strlit("r");
        reveal_strlit("s");
        reveal_strlit("t");
        reveal_strlit("u");
        reveal_strlit("v");
        reveal_strlit("w");
        reveal_strlit("x");
        reveal_strlit("y");
        reveal_strlit("z");
    }
    let text = match c {
        'A' => "a",
        'B' => "b",
        'C' => "c",
        'D' => "d",
        'E' => "e",
        'F' => "f",
        'G' => "g",
        'H' => "h",
        'I' => "i",
        'J' => "j",
        'K' => "k",
        'L' => "l",
        'M' => "m",
        'N' => "n",
        'O' => "o",
        'P' => "p",
        'Q' => "q",
        'R' => "r",
        'S' => "s",
        'T' => "t",
        'U' => "u",
        'V' => "v",
        'W' => "w",
        'X' => "x",
        'Y' => "y",
        _ => "z",
    };
    assert(text@ =~= seq![ascii_lower(c)]);
    text
}

/// `text` with every ASCII capital letter replaced by its lower-case form.
/// Runs of other characters are copied as they are.
pub fn to_lower_string(text: &str) -> (lowered: String)
    ensures
        lowered@ == lower(text@),
{
    let chars = to_chars(text);
    let mut lowered = String::new();
    let mut start: usize = 0;
    let mut i: usize = 0;
    while i < chars.len()
        invariant
            start <= i <= chars.len(),
            chars@ == text@,
            lowered@ == lower(text@.take(start as int)),
            forall|k: int| start <= k < i ==> ascii_lower(text@[k]) == text@[k],
        decreases chars.len() - i,
    {
        let c = chars[i];
        if 'A' <= c && c <= 'Z' {
            let ghost before = lowered@;
            lowered.append(text.substring_char(start, i));
            lowered.append(lower_letter_text(c));
            assert(lowered@ =~= lower(text@.take(i + 1))) by {
                assert(lowered@ == before + text@.subrange(start as int, i as int) + seq![
                    ascii_lower(c),
                ]);
            }
            start = i + 1;
        }
        i += 1;
    }
    let ghost before = lowered@;
    lowered.append(text.substring_char(start, i));
    assert(lowered@ =~= lower(text@)) by {
        assert(lowered@ == before + text@.subrange(start as int, i as int));
    }
    lowered
}

/// How often `text` stands in `texts` before the position `upto`.
pub open spec fn occurrences_before(texts: Seq<Seq<char>>, text: Seq<char>, upto: int) -> nat
    decreases upto,
{
    if upto <= 0 {
        0
    } else if upto <= texts.len() && texts[upto - 1] == text {
        occurrences_before(texts, text, upto - 1) + 1
    } else {
        occurrences_before(texts, text, upto - 1)
    }
}

/// The position, at or after `from`, at which `text` stands in `texts` for
/// the time that follows `skip` earlier ones.
pub open spec fn nth_occurrence(
    texts: Seq<Seq<char>>,
    text: Seq<char>,
    skip: nat,
    from: int,
) -> Option<int>
    decreases texts.len() - from,
{
    if from < 0 || from >= texts.len() {
        None
    } else if texts[from] == text {
        if skip == 0 {
            Some(from)
        } else {
            nth_occurrence(texts, text, (skip - 1) as nat, from + 1)
        }
    } else {
        nth_occurrence(texts, text, skip, from + 1)
    }
}

/// What `nth_occurrence` finds is a position at which `text` stands.
pub proof fn lemma_nth_occurrence(texts: Seq<Seq<char>>, text: Seq<char>, skip: nat, from: int)
    requires
        0 <= from,
    ensures
        nth_occurrence(texts, text, skip, from) matches Some(at) ==> from <= at < texts.len()
            && texts[at] == text,
    decreases texts.len() - from,
{
    if from < texts.len() {
        if texts[from] == text {
            if skip > 0 {
                lemma_nth_occurrence(texts, text, (skip - 1) as nat, from + 1);
            }
        } else {
            lemma_nth_occurrence(texts, text, skip, from + 1);
        }
    }
}

/// The position at which `text` stands in `texts` for the time that follows
/// `skip` earlier ones.
pub fn find_nth(texts: &Vec<String>, text: &str, skip: usize) -> (found: Option<usize>)
    ensures
        match found {
            Some(at) => at < texts.len() && nth_occurrence(
                texts.deep_view(),
                text@,
                skip as nat,
                0,
            ) == Some(at as int),
            None => nth_occurrence(texts.deep_view(), text@, skip as nat, 0) is None,
        },
{
    let wanted = text.to_string();
    let mut left: usize = skip;
    let mut i: usize = 0;
    while i < texts.len()
        invariant
            i <= texts.len(),
            wanted@ == text@,
            nth_occurrence(texts.deep_view(), text@, skip as nat, 0) == nth_occurrence(
                texts.deep_view(),
                text@,
                left as nat,
                i as int,
            ),
        decreases texts.len() - i,
    {
        assert(texts.deep_view()[i as int] == texts@[i as int]@);
        if texts[i] == wanted {
            if left == 0 {
                return Some(i);
            }
            left -= 1;
        }
        i += 1;
    }
    None
}

} // verus!
