//! The executable parser for the filter-query language, proved to match
//! the grammar of [`crate::grammar`] exactly.

use vstd::prelude::*;
use vstd::string::{StrSliceExecFns, StringExecFns};

use crate::ast::{ExprModel, Expression, Operator};
use crate::grammar::{
    bare_count, char_at, ci_eq, find_rel, ident_count, is_bare_char, is_ident_char,
    is_ident_start, is_quote, kw_and, kw_in, kw_like, kw_not, kw_or, lemma_bare_count_is_run,
    lemma_find_rel_found, lemma_find_rel_none, lemma_ident_count_is_run, match_op, match_value,
    max0, parse_and, parse_and_tail, parse_comp, parse_or, parse_or_tail, parse_query,
};
use crate::text::{str_to_chars, skip_ws};

verus! {

/// The one error the pipeline can report: the byte offset at which
/// grammar matching could not continue, and an explanation of the token
/// alternatives that were viable there, which this parser leaves empty.
#[derive(Debug)]
pub struct ParseError {
    /// The character offset of the failure.
    pub location: usize,
    /// The viable alternatives at that offset; left empty.
    pub expected: String,
}

/// Whether `a` equals `b` up to ASCII case, where `b` is lowercase.
fn ci_char(a: char, b: char) -> (r: bool)
    ensures
        r == ci_eq(a, b),
{
    if a == b {
        true
    } else {
        let au = a as u32;
        ('A' as u32) <= au && au <= ('Z' as u32) && au + 32 == (b as u32)
    }
}

/// Whether the character `c` stands at `pos`.
fn at_char(chars: &Vec<char>, pos: usize, c: char) -> (r: bool)
    ensures
        r == char_at(chars@, pos as int, c),
{
    pos < chars.len() && chars[pos] == c
}

/// Whether the keyword `and` stands at `pos`, case-insensitively.
fn kw_and_at(chars: &Vec<char>, pos: usize) -> (r: bool)
    requires
        pos <= chars@.len(),
    ensures
        r == kw_and(chars@, pos as int),
{
    chars.len() - pos >= 3 && ci_char(chars[pos], 'a') && ci_char(chars[pos + 1], 'n')
        && ci_char(chars[pos + 2], 'd')
}

/// Whether the keyword `or` stands at `pos`, case-insensitively.
fn kw_or_at(chars: &Vec<char>, pos: usize) -> (r: bool)
    requires
        pos <= chars@.len(),
    ensures
        r == kw_or(chars@, pos as int),
{
    chars.len() - pos >= 2 && ci_char(chars[pos], 'o') && ci_char(chars[pos + 1], 'r')
}

/// Whether the keyword `like` stands at `pos`, case-insensitively.
fn kw_like_at(chars: &Vec<char>, pos: usize) -> (r: bool)
    requires
        pos <= chars@.len(),
    ensures
        r == kw_like(chars@, pos as int),
{
    chars.len() - pos >= 4 && ci_char(chars[pos], 'l') && ci_char(chars[pos + 1], 'i')
        && ci_char(chars[pos + 2], 'k') && ci_char(chars[pos + 3], 'e')
}

/// Whether the keyword `not` stands at `pos`, case-insensitively.
fn kw_not_at(chars: &Vec<char>, pos: usize) -> (r: bool)
    requires
        pos <= chars@.len(),
    ensures
        r == kw_not(chars@, pos as int),
{
    chars.len() - pos >= 3 && ci_char(chars[pos], 'n') && ci_char(chars[pos + 1], 'o')
        && ci_char(chars[pos + 2], 't')
}

/// Whether the keyword `in` stands at `pos`, case-insensitively.
fn kw_in_at(chars: &Vec<char>, pos: usize) -> (r: bool)
    requires
        pos <= chars@.len(),
    ensures
        r == kw_in(chars@, pos as int),
{
    chars.len() - pos >= 2 && ci_char(chars[pos], 'i') && ci_char(chars[pos + 1], 'n')
}

/// Whether `c` may start an identifier.
fn ident_start_char(c: char) -> (r: bool)
    ensures
        r == is_ident_start(c),
{
    let cu = c as u32;
    (('a' as u32) <= cu && cu <= ('z' as u32)) || (('A' as u32) <= cu && cu <= ('Z' as u32))
        || c == '_'
}

/// Whether `c` may continue an identifier.
fn ident_char(c: char) -> (r: bool)
    ensures
        r == is_ident_char(c),
{
    let cu = c as u32;
    ident_start_char(c) || (('0' as u32) <= cu && cu <= ('9' as u32))
}

/// Whether `c` opens a quoted value.
fn quote_char(c: char) -> (r: bool)
    ensures
        r == is_quote(c),
{
    c == '"' || c == '\''
}

/// Whether `c` may stand in a bare value.
fn bare_char(c: char) -> (r: bool)
    ensures
        r == is_bare_char(c),
{
    !(c == ' ' || c == '\t' || c == '\r' || c == '\n') && !quote_char(c) && c != '(' && c != ')'
        && c != ','
}

/// The first position at or after `pos` holding no identifier character.
fn skip_ident(chars: &Vec<char>, pos: usize) -> (r: usize)
    requires
        pos <= chars@.len(),
    ensures
        r == pos + ident_count(chars@, pos as int),
        pos <= r <= chars@.len(),
{
    let n: usize = chars.len();
    let mut i: usize = pos;
    while i < n && ident_char(chars[i])
        invariant
            pos <= i <= n,
            n == chars@.len(),
            forall|k: int| pos <= k < i ==> is_ident_char(chars@[k]),
        decreases n - i,
    {
        i = i + 1;
    }
    proof {
        lemma_ident_count_is_run(chars@, pos as int, i as int);
    }
    i
}

/// The first position at or after `pos` holding no bare character.
fn skip_bare(chars: &Vec<char>, pos: usize) -> (r: usize)
    requires
        pos <= chars@.len(),
    ensures
        r == pos + bare_count(chars@, pos as int),
        pos <= r <= chars@.len(),
{
    let n: usize = chars.len();
    let mut i: usize = pos;
    while i < n && bare_char(chars[i])
        invariant
            pos <= i <= n,
            n == chars@.len(),
            forall|k: int| pos <= k < i ==> is_bare_char(chars@[k]),
        decreases n - i,
    {
        i = i + 1;
    }
    proof {
        lemma_bare_count_is_run(chars@, pos as int, i as int);
    }
    i
}

/// The position of the first `c` at or after `pos`, or `None`.
fn find_char(chars: &Vec<char>, pos: usize, c: char) -> (r: Option<usize>)
    requires
        pos <= chars@.len(),
    ensures
        match r {
            Some(j) => pos <= j < chars@.len() && find_rel(chars@, pos as int, c) == Some(
                (j - pos) as nat,
            ),
            None => find_rel(chars@, pos as int, c) == None::<nat>,
        },
{
    let n: usize = chars.len();
    let mut i: usize = pos;
    while i < n && chars[i] != c
        invariant
            pos <= i <= n,
            n == chars@.len(),
            forall|k: int| pos <= k < i ==> chars@[k] != c,
        decreases n - i,
    {
        i = i + 1;
    }
    if i < n {
        proof {
            lemma_find_rel_found(chars@, pos as int, c, i as int);
        }
        Some(i)
    } else {
        proof {
            lemma_find_rel_none(chars@, pos as int, c);
        }
        None
    }
}

/// The comparison operator standing at `pos` and the count of
/// characters it spans, or `None`.
fn p_op(chars: &Vec<char>, pos: usize) -> (r: Option<(Operator, usize)>)
    requires
        pos <= chars@.len(),
    ensures
        match r {
            Some((op, k)) => match_op(chars@, pos as int) == Some((op, k as nat)) && pos + k
                <= chars@.len(),
            None => match_op(chars@, pos as int) == None::<(Operator, nat)>,
        },
{
    if at_char(chars, pos, '>') && pos < chars.len() && at_char(chars, pos + 1, '=') {
        Some((Operator::Gte, 2))
    } else if at_char(chars, pos, '<') && pos < chars.len() && at_char(chars, pos + 1, '=') {
        Some((Operator::Lte, 2))
    } else if at_char(chars, pos, '<') && pos < chars.len() && at_char(chars, pos + 1, '>') {
        Some((Operator::Neq, 2))
    } else if at_char(chars, pos, '!') && pos < chars.len() && at_char(chars, pos + 1, '=') {
        Some((Operator::Neq, 2))
    } else if at_char(chars, pos, '>') {
        Some((Operator::Gt, 1))
    } else if at_char(chars, pos, '<') {
        Some((Operator::Lt, 1))
    } else if at_char(chars, pos, '=') {
        Some((Operator::Eq, 1))
    } else if kw_like_at(chars, pos) {
        Some((Operator::Like, 4))
    } else if kw_not_at(chars, pos) {
        if chars.len() - pos >= 3 {
            let q = skip_ws(chars, pos + 3);
            if kw_in_at(chars, q) {
                Some((Operator::NotIn, (q - pos) + 2))
            } else {
                None
            }
        } else {
            proof {
                assert(false);
            }
            None
        }
    } else if kw_in_at(chars, pos) {
        Some((Operator::In, 2))
    } else {
        None
    }
}

/// The count of characters spanned by the literal value standing at
/// `pos`, or the offset at which no value form could continue.
fn p_value(chars: &Vec<char>, pos: usize) -> (r: Result<usize, usize>)
    requires
        pos <= chars@.len(),
    ensures
        match r {
            Ok(k) => match_value(chars@, pos as int) == Ok::<nat, int>(k as nat) && 0 < k && pos
                + k <= chars@.len(),
            Err(off) => match_value(chars@, pos as int) == Err::<nat, int>(off as int) && off
                <= chars@.len(),
        },
{
    if pos < chars.len() && quote_char(chars[pos]) {
        match find_char(chars, pos + 1, chars[pos]) {
            Some(j) => Ok((j - pos) + 1),
            None => Err(chars.len()),
        }
    } else if at_char(chars, pos, '(') {
        match find_char(chars, pos + 1, ')') {
            Some(j) => Ok((j - pos) + 1),
            None => Err(chars.len()),
        }
    } else {
        let e = skip_bare(chars, pos);
        if e > pos {
            Ok(e - pos)
        } else {
            Err(pos)
        }
    }
}

/// Matches one comparison at `pos`, after optional whitespace: a
/// parenthesized sub-expression or `field op value`.
fn p_comp(s: &str, chars: &Vec<char>, pos: usize) -> (r: Result<(Expression, usize), usize>)
    requires
        chars@ == s@,
        pos <= chars@.len(),
        chars@.len() <= usize::MAX,
    ensures
        match r {
            Ok((e, end)) => ({
                &&& pos <= end <= chars@.len()
                &&& parse_comp(chars@, pos as int) matches Ok((m, n)) && m == e@ && end == pos + n
            }),
            Err(off) => ({
                &&& off <= chars@.len()
                &&& parse_comp(chars@, pos as int) matches Err(p) && p == off as int
            }),
        },
    decreases max0(chars@.len() - pos), 0int,
{
    let q = skip_ws(chars, pos);
    if at_char(chars, q, '(') {
        match p_or(s, chars, q + 1) {
            Ok((e, end1)) => {
                let close = skip_ws(chars, end1);
                if at_char(chars, close, ')') {
                    Ok((e, close + 1))
                } else {
                    Err(close)
                }
            },
            Err(off) => Err(off),
        }
    } else if q < chars.len() && ident_start_char(chars[q]) {
        let fe = skip_ident(chars, q);
        let opq = skip_ws(chars, fe);
        match p_op(chars, opq) {
            Some((op, ol)) => {
                let vq = skip_ws(chars, opq + ol);
                match p_value(chars, vq) {
                    Ok(vl) => {
                        let field = String::from_str(s.substring_char(q, fe));
                        let value = String::from_str(s.substring_char(vq, vq + vl));
                        Ok((Expression::Comparison(field, op, value), vq + vl))
                    },
                    Err(off) => Err(off),
                }
            },
            None => Err(opq),
        }
    } else {
        Err(q)
    }
}

/// Folds `( "and" comp_expr )*` onto `acc` from `pos` on, left-leaning.
fn p_and_tail(s: &str, chars: &Vec<char>, acc: Expression, pos: usize) -> (r: Result<
    (Expression, usize),
    usize,
>)
    requires
        chars@ == s@,
        pos <= chars@.len(),
        chars@.len() <= usize::MAX,
    ensures
        match r {
            Ok((e, end)) => ({
                &&& pos <= end <= chars@.len()
                &&& parse_and_tail(chars@, acc@, pos as int) matches Ok((m, n)) && m == e@ && end == pos
                    + n
            }),
            Err(off) => ({
                &&& off <= chars@.len()
                &&& parse_and_tail(chars@, acc@, pos as int) matches Err(p) && p == off as int
            }),
        },
    decreases max0(chars@.len() - pos), 1int,
{
    let ghost accm = acc@;
    let q = skip_ws(chars, pos);
    if kw_and_at(chars, q) {
        match p_comp(s, chars, q + 3) {
            Ok((e2, end2)) => {
                let acc2 = Expression::And(Box::new(acc), Box::new(e2));
                proof {
                    assert(acc2@ == ExprModel::And(Box::new(accm), Box::new(e2@)));
                }
                p_and_tail(s, chars, acc2, end2)
            },
            Err(off) => Err(off),
        }
    } else {
        Ok((acc, pos))
    }
}

/// Matches `and_expr := comp_expr ( "and" comp_expr )*` at `pos`.
fn p_and(s: &str, chars: &Vec<char>, pos: usize) -> (r: Result<(Expression, usize), usize>)
    requires
        chars@ == s@,
        pos <= chars@.len(),
        chars@.len() <= usize::MAX,
    ensures
        match r {
            Ok((e, end)) => ({
                &&& pos <= end <= chars@.len()
                &&& parse_and(chars@, pos as int) matches Ok((m, n)) && m == e@ && end == pos + n
            }),
            Err(off) => ({
                &&& off <= chars@.len()
                &&& parse_and(chars@, pos as int) matches Err(p) && p == off as int
            }),
        },
    decreases max0(chars@.len() - pos), 2int,
{
    match p_comp(s, chars, pos) {
        Ok((e, end1)) => p_and_tail(s, chars, e, end1),
        Err(off) => Err(off),
    }
}

/// Folds `( "or" and_expr )*` onto `acc` from `pos` on, left-leaning.
fn p_or_tail(s: &str, chars: &Vec<char>, acc: Expression, pos: usize) -> (r: Result<
    (Expression, usize),
    usize,
>)
    requires
        chars@ == s@,
        pos <= chars@.len(),
        chars@.len() <= usize::MAX,
    ensures
        match r {
            Ok((e, end)) => ({
                &&& pos <= end <= chars@.len()
                &&& parse_or_tail(chars@, acc@, pos as int) matches Ok((m, n)) && m == e@ && end == pos
                    + n
            }),
            Err(off) => ({
                &&& off <= chars@.len()
                &&& parse_or_tail(chars@, acc@, pos as int) matches Err(p) && p == off as int
            }),
        },
    decreases max0(chars@.len() - pos), 3int,
{
    let ghost accm = acc@;
    let q = skip_ws(chars, pos);
    if kw_or_at(chars, q) {
        match p_and(s, chars, q + 2) {
            Ok((e2, end2)) => {
                let acc2 = Expression::Or(Box::new(acc), Box::new(e2));
                proof {
                    assert(acc2@ == ExprModel::Or(Box::new(accm), Box::new(e2@)));
                }
                p_or_tail(s, chars, acc2, end2)
            },
            Err(off) => Err(off),
        }
    } else {
        Ok((acc, pos))
    }
}

/// Matches `or_expr := and_expr ( "or" and_expr )*` at `pos`.
fn p_or(s: &str, chars: &Vec<char>, pos: usize) -> (r: Result<(Expression, usize), usize>)
    requires
        chars@ == s@,
        pos <= chars@.len(),
        chars@.len() <= usize::MAX,
    ensures
        match r {
            Ok((e, end)) => ({
                &&& pos <= end <= chars@.len()
                &&& parse_or(chars@, pos as int) matches Ok((m, n)) && m == e@ && end == pos + n
            }),
            Err(off) => ({
                &&& off <= chars@.len()
                &&& parse_or(chars@, pos as int) matches Err(p) && p == off as int
            }),
        },
    decreases max0(chars@.len() - pos), 4int,
{
    match p_and(s, chars, pos) {
        Ok((e, end1)) => p_or_tail(s, chars, e, end1),
        Err(off) => Err(off),
    }
}

/// The parser for the filter-query language.
pub struct ExprParser;

impl ExprParser {
    /// Parses a whole query into an expression tree, or reports the
    /// offset at which grammar matching could not continue. The
    /// `expected` explanation is left empty; only the offset is
    /// load-bearing.
    pub fn parse(input: &str) -> (r: Result<Expression, ParseError>)
        ensures
            match r {
                Ok(e) => parse_query(input@) matches Ok(m) && m == e@,
                Err(err) => parse_query(input@) matches Err(p) && p == err.location as int
                    && err.expected@ == Seq::<char>::empty(),
            },
    {
        let chars = str_to_chars(input);
        let n = chars.len();
        match p_or(input, &chars, 0) {
            Ok((e, end)) => {
                let q = skip_ws(&chars, end);
                if q == n {
                    Ok(e)
                } else {
                    Err(ParseError { location: q, expected: String::new() })
                }
            },
            Err(off) => Err(ParseError { location: off, expected: String::new() }),
        }
    }
}

} // verus!
