//! Character-level text utilities shared by the grammar and the list-value
//! splitter: whitespace runs, character searches, and trimming.
//!
//! Throughout this crate, whitespace means the four ASCII characters
//! space, tab, carriage return and line feed.

use vstd::prelude::*;

verus! {

/// Whether `c` is a whitespace character of the query language.
pub open spec fn is_space(c: char) -> bool {
    c == ' ' || c == '\t' || c == '\r' || c == '\n'
}

/// The length of the whitespace run of `s` that starts at `pos`.
pub open spec fn ws_count(s: Seq<char>, pos: int) -> nat
    decreases s.len() - pos,
{
    if 0 <= pos < s.len() && is_space(s[pos]) {
        1 + ws_count(s, pos + 1)
    } else {
        0
    }
}

/// The whitespace run starting at `pos` spans exactly `pos..end`, where
/// `end` is the first position at or after `pos` holding no whitespace.
pub proof fn lemma_ws_count_is_run(s: Seq<char>, pos: int, end: int)
    requires
        0 <= pos <= end <= s.len(),
        forall|k: int| pos <= k < end ==> is_space(s[k]),
        end == s.len() || !is_space(s[end]),
    ensures
        ws_count(s, pos) == end - pos,
    decreases end - pos,
{
    if pos < end {
        lemma_ws_count_is_run(s, pos + 1, end);
    }
}

/// The length of the non-whitespace run of `s` that starts at `pos`.
pub open spec fn token_count(s: Seq<char>, pos: int) -> nat
    decreases s.len() - pos,
{
    if 0 <= pos < s.len() && !is_space(s[pos]) {
        1 + token_count(s, pos + 1)
    } else {
        0
    }
}

/// The non-whitespace run starting at `pos` spans exactly `pos..end`,
/// where `end` is the first position at or after `pos` holding
/// whitespace.
pub proof fn lemma_token_count_is_run(s: Seq<char>, pos: int, end: int)
    requires
        0 <= pos <= end <= s.len(),
        forall|k: int| pos <= k < end ==> !is_space(s[k]),
        end == s.len() || is_space(s[end]),
    ensures
        token_count(s, pos) == end - pos,
    decreases end - pos,
{
    if pos < end {
        lemma_token_count_is_run(s, pos + 1, end);
    }
}

/// The first position at or after `pos` holding whitespace.
pub fn skip_token(chars: &Vec<char>, pos: usize) -> (r: usize)
    requires
        pos <= chars@.len(),
    ensures
        r == pos + token_count(chars@, pos as int),
        pos <= r <= chars@.len(),
{
    let n: usize = chars.len();
    let mut i: usize = pos;
    while i < n && !is_space_char(chars[i])
        invariant
            pos <= i <= n,
            n == chars@.len(),
            forall|k: int| pos <= k < i ==> !is_space(chars@[k]),
        decreases n - i,
    {
        i = i + 1;
    }
    proof {
        lemma_token_count_is_run(chars@, pos as int, i as int);
    }
    i
}

/// The length of the trailing whitespace run of `s.take(end)`.
pub open spec fn ws_count_back(s: Seq<char>, end: int) -> nat
    decreases end,
{
    if 0 < end <= s.len() && is_space(s[end - 1]) {
        1 + ws_count_back(s, end - 1)
    } else {
        0
    }
}

/// The trailing whitespace run of `s.take(end)` spans exactly
/// `start..end`, where `start` is the last position at or before `end`
/// preceded by no whitespace.
pub proof fn lemma_ws_count_back_is_run(s: Seq<char>, start: int, end: int)
    requires
        0 <= start <= end <= s.len(),
        forall|k: int| start <= k < end ==> is_space(s[k]),
        start == 0 || !is_space(s[start - 1]),
    ensures
        ws_count_back(s, end) == end - start,
    decreases end - start,
{
    if start < end {
        lemma_ws_count_back_is_run(s, start, end - 1);
    }
}

/// The first position at or after `pos` where `c` stands, or `s.len()`
/// where there is none.
pub open spec fn find_from(s: Seq<char>, pos: int, c: char) -> int
    decreases s.len() - pos,
{
    if !(0 <= pos < s.len()) {
        s.len() as int
    } else if s[pos] == c {
        pos
    } else {
        find_from(s, pos + 1, c)
    }
}

/// `find_from` returns exactly the first occurrence at or after `pos`.
pub proof fn lemma_find_from_is_first(s: Seq<char>, pos: int, c: char, at: int)
    requires
        0 <= pos <= at <= s.len(),
        forall|k: int| pos <= k < at ==> s[k] != c,
        at == s.len() || s[at] == c,
    ensures
        find_from(s, pos, c) == at,
    decreases at - pos,
{
    if pos < at {
        lemma_find_from_is_first(s, pos + 1, c, at);
    }
}

/// `s` with leading and trailing whitespace removed.
pub open spec fn trim(s: Seq<char>) -> Seq<char> {
    let lead = ws_count(s, 0);
    let trail = ws_count_back(s, s.len() as int);
    if lead + trail <= s.len() {
        s.subrange(lead as int, s.len() - trail)
    } else {
        Seq::empty()
    }
}

/// The characters of `s`, one by one.
pub fn str_to_chars(s: &str) -> (r: Vec<char>)
    ensures
        r@ == s@,
{
    let n: usize = s.unicode_len();
    let mut r: Vec<char> = Vec::new();
    let mut i: usize = 0;
    while i < n
        invariant
            n == s@.len(),
            i <= n,
            r@ == s@.subrange(0, i as int),
        decreases n - i,
    {
        r.push(s.get_char(i));
        assert(r@ =~= s@.subrange(0, i + 1));
        i = i + 1;
    }
    assert(r@ =~= s@);
    r
}

/// The first position at or after `pos` holding no whitespace.
pub fn skip_ws(chars: &Vec<char>, pos: usize) -> (r: usize)
    requires
        pos <= chars@.len(),
    ensures
        r == pos + ws_count(chars@, pos as int),
        pos <= r <= chars@.len(),
        r == chars@.len() || !is_space(chars@[r as int]),
        forall|k: int| pos <= k < r ==> is_space(chars@[k]),
{
    let n: usize = chars.len();
    let mut i: usize = pos;
    while i < n && is_space_char(chars[i])
        invariant
            pos <= i <= n,
            n == chars@.len(),
            forall|k: int| pos <= k < i ==> is_space(chars@[k]),
        decreases n - i,
    {
        i = i + 1;
    }
    proof {
        lemma_ws_count_is_run(chars@, pos as int, i as int);
    }
    i
}

/// Whether `c` is a whitespace character of the query language.
pub fn is_space_char(c: char) -> (r: bool)
    ensures
        r == is_space(c),
{
    c == ' ' || c == '\t' || c == '\r' || c == '\n'
}

} // verus!
