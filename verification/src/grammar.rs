//! The grammar of the filter-query language, as a mathematical function
//! from input text to an expression model or a syntax-error offset.
//!
//! ```text
//! query     := or_expr EOI
//! or_expr   := and_expr ( "or" and_expr )*          (left-associative)
//! and_expr  := comp_expr ( "and" comp_expr )*       (left-associative)
//! comp_expr := "(" or_expr ")" | field op value
//! field     := identifier
//! op        := ">=" | "<=" | "<>" | "!=" | ">" | "<" | "="
//!            | "like" | "not in" | "in"             (keywords case-insensitive)
//! value     := quoted_string | "(" list ")" | bare_token
//! ```
//!
//! Whitespace may stand between any two tokens, and between `not` and
//! `in`. Matching is ordered-choice with single-token lookahead; on
//! failure, the reported offset is the position at which the innermost
//! committed production could not continue, which for this grammar is
//! the furthest position any match attempt reached.

use vstd::prelude::*;

use crate::ast::{ExprModel, Operator};
use crate::text::{is_space, ws_count};

verus! {

/// The outcome of matching one production at a position: the parsed
/// model with the count of characters consumed from that position, or
/// the absolute offset at which matching could not continue.
pub type Matched = Result<(ExprModel, nat), int>;

/// `x`, floored at zero.
pub open spec fn max0(x: int) -> int {
    if x < 0 {
        0
    } else {
        x
    }
}

/// Whether `a` equals `b` up to ASCII case, where `b` is lowercase.
pub open spec fn ci_eq(a: char, b: char) -> bool {
    a == b || (('A' as u32) <= (a as u32) <= ('Z' as u32) && (a as u32) + 32 == (b as u32))
}

/// Whether `c` may start an identifier: an ASCII letter or `_`.
pub open spec fn is_ident_start(c: char) -> bool {
    (('a' as u32) <= (c as u32) <= ('z' as u32)) || (('A' as u32) <= (c as u32) <= ('Z' as u32))
        || c == '_'
}

/// Whether `c` may continue an identifier: an ASCII letter, digit or `_`.
pub open spec fn is_ident_char(c: char) -> bool {
    is_ident_start(c) || (('0' as u32) <= (c as u32) <= ('9' as u32))
}

/// Whether `c` opens a quoted value.
pub open spec fn is_quote(c: char) -> bool {
    c == '"' || c == '\''
}

/// Whether `c` may stand in a bare (unquoted, unparenthesized) value.
pub open spec fn is_bare_char(c: char) -> bool {
    !is_space(c) && !is_quote(c) && c != '(' && c != ')' && c != ','
}

/// The length of the identifier-character run of `s` that starts at `pos`.
pub open spec fn ident_count(s: Seq<char>, pos: int) -> nat
    decreases s.len() - pos,
{
    if 0 <= pos < s.len() && is_ident_char(s[pos]) {
        1 + ident_count(s, pos + 1)
    } else {
        0
    }
}

/// The length of the bare-character run of `s` that starts at `pos`.
pub open spec fn bare_count(s: Seq<char>, pos: int) -> nat
    decreases s.len() - pos,
{
    if 0 <= pos < s.len() && is_bare_char(s[pos]) {
        1 + bare_count(s, pos + 1)
    } else {
        0
    }
}

/// The distance from `pos` to the first occurrence of `c` at or after
/// `pos`, or `None` where there is none.
pub open spec fn find_rel(s: Seq<char>, pos: int, c: char) -> Option<nat>
    decreases s.len() - pos,
{
    if !(0 <= pos < s.len()) {
        None
    } else if s[pos] == c {
        Some(0nat)
    } else {
        match find_rel(s, pos + 1, c) {
            Some(d) => Some(1 + d),
            None => None,
        }
    }
}

/// The identifier run starting at `pos` spans exactly `pos..end`, where
/// `end` is the first position at or after `pos` holding no identifier
/// character.
pub proof fn lemma_ident_count_is_run(s: Seq<char>, pos: int, end: int)
    requires
        0 <= pos <= end <= s.len(),
        forall|k: int| pos <= k < end ==> is_ident_char(s[k]),
        end == s.len() || !is_ident_char(s[end]),
    ensures
        ident_count(s, pos) == end - pos,
    decreases end - pos,
{
    if pos < end {
        lemma_ident_count_is_run(s, pos + 1, end);
    }
}

/// The bare-character run starting at `pos` spans exactly `pos..end`,
/// where `end` is the first position at or after `pos` holding no bare
/// character.
pub proof fn lemma_bare_count_is_run(s: Seq<char>, pos: int, end: int)
    requires
        0 <= pos <= end <= s.len(),
        forall|k: int| pos <= k < end ==> is_bare_char(s[k]),
        end == s.len() || !is_bare_char(s[end]),
    ensures
        bare_count(s, pos) == end - pos,
    decreases end - pos,
{
    if pos < end {
        lemma_bare_count_is_run(s, pos + 1, end);
    }
}

/// `find_rel` finds exactly the first occurrence.
pub proof fn lemma_find_rel_found(s: Seq<char>, pos: int, c: char, at: int)
    requires
        0 <= pos <= at < s.len(),
        forall|k: int| pos <= k < at ==> s[k] != c,
        s[at] == c,
    ensures
        find_rel(s, pos, c) == Some((at - pos) as nat),
    decreases at - pos,
{
    if pos < at {
        lemma_find_rel_found(s, pos + 1, c, at);
    }
}

/// `find_rel` finds nothing where `c` stands nowhere at or after `pos`.
pub proof fn lemma_find_rel_none(s: Seq<char>, pos: int, c: char)
    requires
        0 <= pos,
        forall|k: int| pos <= k < s.len() ==> s[k] != c,
    ensures
        find_rel(s, pos, c) == None::<nat>,
    decreases s.len() - pos,
{
    if pos < s.len() {
        lemma_find_rel_none(s, pos + 1, c);
    }
}

/// Whether the keyword `and` stands at `pos`, case-insensitively.
pub open spec fn kw_and(s: Seq<char>, pos: int) -> bool {
    0 <= pos && pos + 3 <= s.len() && ci_eq(s[pos], 'a') && ci_eq(s[pos + 1], 'n') && ci_eq(
        s[pos + 2],
        'd',
    )
}

/// Whether the keyword `or` stands at `pos`, case-insensitively.
pub open spec fn kw_or(s: Seq<char>, pos: int) -> bool {
    0 <= pos && pos + 2 <= s.len() && ci_eq(s[pos], 'o') && ci_eq(s[pos + 1], 'r')
}

/// Whether the keyword `like` stands at `pos`, case-insensitively.
pub open spec fn kw_like(s: Seq<char>, pos: int) -> bool {
    0 <= pos && pos + 4 <= s.len() && ci_eq(s[pos], 'l') && ci_eq(s[pos + 1], 'i') && ci_eq(
        s[pos + 2],
        'k',
    ) && ci_eq(s[pos + 3], 'e')
}

/// Whether the keyword `not` stands at `pos`, case-insensitively.
pub open spec fn kw_not(s: Seq<char>, pos: int) -> bool {
    0 <= pos && pos + 3 <= s.len() && ci_eq(s[pos], 'n') && ci_eq(s[pos + 1], 'o') && ci_eq(
        s[pos + 2],
        't',
    )
}

/// Whether the keyword `in` stands at `pos`, case-insensitively.
pub open spec fn kw_in(s: Seq<char>, pos: int) -> bool {
    0 <= pos && pos + 2 <= s.len() && ci_eq(s[pos], 'i') && ci_eq(s[pos + 1], 'n')
}

/// Whether the character `c` stands at `pos`.
pub open spec fn char_at(s: Seq<char>, pos: int, c: char) -> bool {
    0 <= pos < s.len() && s[pos] == c
}

/// The comparison operator standing at `pos` and the count of characters
/// it spans, or `None`. Two-character symbols are matched before their
/// one-character prefixes; `not` and `in` may be parted by whitespace.
pub open spec fn match_op(s: Seq<char>, pos: int) -> Option<(Operator, nat)> {
    if char_at(s, pos, '>') && char_at(s, pos + 1, '=') {
        Some((Operator::Gte, 2nat))
    } else if char_at(s, pos, '<') && char_at(s, pos + 1, '=') {
        Some((Operator::Lte, 2nat))
    } else if char_at(s, pos, '<') && char_at(s, pos + 1, '>') {
        Some((Operator::Neq, 2nat))
    } else if char_at(s, pos, '!') && char_at(s, pos + 1, '=') {
        Some((Operator::Neq, 2nat))
    } else if char_at(s, pos, '>') {
        Some((Operator::Gt, 1nat))
    } else if char_at(s, pos, '<') {
        Some((Operator::Lt, 1nat))
    } else if char_at(s, pos, '=') {
        Some((Operator::Eq, 1nat))
    } else if kw_like(s, pos) {
        Some((Operator::Like, 4nat))
    } else if kw_not(s, pos) {
        let w = ws_count(s, pos + 3);
        if kw_in(s, pos + 3 + w) {
            Some((Operator::NotIn, 3 + w + 2))
        } else {
            None
        }
    } else if kw_in(s, pos) {
        Some((Operator::In, 2nat))
    } else {
        None
    }
}

/// The count of characters spanned by the literal value standing at
/// `pos`: a quoted string (kept verbatim, quotes included), a
/// parenthesized list (kept verbatim, parentheses included), or a bare
/// token. The error offset is the position of the missing value, or the
/// end of the input for an unterminated quote or list.
pub open spec fn match_value(s: Seq<char>, pos: int) -> Result<nat, int> {
    if 0 <= pos < s.len() && is_quote(s[pos]) {
        match find_rel(s, pos + 1, s[pos]) {
            Some(d) => Ok(1 + d + 1),
            None => Err(s.len() as int),
        }
    } else if char_at(s, pos, '(') {
        match find_rel(s, pos + 1, ')') {
            Some(d) => Ok(1 + d + 1),
            None => Err(s.len() as int),
        }
    } else {
        let n = bare_count(s, pos);
        if n > 0 {
            Ok(n)
        } else {
            Err(if pos < 0 {
                0
            } else {
                pos
            })
        }
    }
}

/// Matches one comparison — `( or_expr )` or `field op value` — at `pos`,
/// after optional whitespace.
pub open spec fn parse_comp(s: Seq<char>, pos: int) -> Matched
    decreases max0(s.len() - pos), 0int,
{
    let w1 = ws_count(s, pos);
    let q = pos + w1;
    if char_at(s, q, '(') {
        match parse_or(s, q + 1) {
            Ok((e, n)) => {
                let w2 = ws_count(s, q + 1 + n);
                let close = q + 1 + n + w2;
                if char_at(s, close, ')') {
                    Ok((e, w1 + 1 + n + w2 + 1))
                } else {
                    Err(close)
                }
            },
            Err(p) => Err(p),
        }
    } else if 0 <= q < s.len() && is_ident_start(s[q]) {
        let fl = ident_count(s, q);
        let w2 = ws_count(s, q + fl);
        let opq = q + fl + w2;
        match match_op(s, opq) {
            Some((op, ol)) => {
                let w3 = ws_count(s, opq + ol);
                let vq = opq + ol + w3;
                match match_value(s, vq) {
                    Ok(vl) => Ok(
                        (
                            ExprModel::Comparison(
                                s.subrange(q, q + fl),
                                op,
                                s.subrange(vq, vq + vl),
                            ),
                            w1 + fl + w2 + ol + w3 + vl,
                        ),
                    ),
                    Err(p) => Err(p),
                }
            },
            None => Err(opq),
        }
    } else {
        Err(q)
    }
}

/// Folds `( "and" comp_expr )*` onto `acc` from `pos` on, left-leaning.
pub open spec fn parse_and_tail(s: Seq<char>, acc: ExprModel, pos: int) -> Matched
    decreases max0(s.len() - pos), 1int,
{
    let w = ws_count(s, pos);
    let q = pos + w;
    if kw_and(s, q) {
        match parse_comp(s, q + 3) {
            Ok((e2, n2)) => {
                match parse_and_tail(
                    s,
                    ExprModel::And(Box::new(acc), Box::new(e2)),
                    q + 3 + n2,
                ) {
                    Ok((e, m)) => Ok((e, w + 3 + n2 + m)),
                    Err(p) => Err(p),
                }
            },
            Err(p) => Err(p),
        }
    } else {
        Ok((acc, 0nat))
    }
}

/// Matches `and_expr := comp_expr ( "and" comp_expr )*` at `pos`.
pub open spec fn parse_and(s: Seq<char>, pos: int) -> Matched
    decreases max0(s.len() - pos), 2int,
{
    match parse_comp(s, pos) {
        Ok((e, n)) => match parse_and_tail(s, e, pos + n) {
            Ok((e2, m)) => Ok((e2, n + m)),
            Err(p) => Err(p),
        },
        Err(p) => Err(p),
    }
}

/// Folds `( "or" and_expr )*` onto `acc` from `pos` on, left-leaning.
pub open spec fn parse_or_tail(s: Seq<char>, acc: ExprModel, pos: int) -> Matched
    decreases max0(s.len() - pos), 3int,
{
    let w = ws_count(s, pos);
    let q = pos + w;
    if kw_or(s, q) {
        match parse_and(s, q + 2) {
            Ok((e2, n2)) => {
                match parse_or_tail(s, ExprModel::Or(Box::new(acc), Box::new(e2)), q + 2 + n2) {
                    Ok((e, m)) => Ok((e, w + 2 + n2 + m)),
                    Err(p) => Err(p),
                }
            },
            Err(p) => Err(p),
        }
    } else {
        Ok((acc, 0nat))
    }
}

/// Matches `or_expr := and_expr ( "or" and_expr )*` at `pos`. `and`
/// binds tighter than `or`; both are left-associative.
pub open spec fn parse_or(s: Seq<char>, pos: int) -> Matched
    decreases max0(s.len() - pos), 4int,
{
    match parse_and(s, pos) {
        Ok((e, n)) => match parse_or_tail(s, e, pos + n) {
            Ok((e2, m)) => Ok((e2, n + m)),
            Err(p) => Err(p),
        },
        Err(p) => Err(p),
    }
}

/// Parses a whole query: an `or_expr` that, with surrounding whitespace,
/// must consume the entire input. A trailing unparsed remainder is a
/// failure at the offset of its first non-whitespace character.
pub open spec fn parse_query(s: Seq<char>) -> Result<ExprModel, int> {
    match parse_or(s, 0) {
        Ok((e, n)) => {
            let q = n + ws_count(s, n as int);
            if q == s.len() {
                Ok(e)
            } else {
                Err(q as int)
            }
        },
        Err(p) => Err(p),
    }
}

} // verus!
