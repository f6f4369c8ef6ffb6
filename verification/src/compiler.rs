//! The expression-to-query compiler: turns an [`Expression`] tree into the
//! nested boolean query value that the search engine consumes.

use vstd::prelude::*;
use vstd::string::{StrSliceExecFns, StringExecFns};

use crate::ast::{ExprModel, Expression, Operator};
use crate::text::{
    is_space, is_space_char, lemma_find_from_is_first, lemma_ws_count_back_is_run,
    lemma_ws_count_is_run, str_to_chars, trim, find_from,
};
use crate::value::{
    arr1, arr2, elems_model, keys_unique, lemma_arr1_keys, lemma_arr2_keys, lemma_elems_model,
    lemma_keys_unique_elems, lemma_obj1_keys, lemma_obj2_keys, obj1, obj1s, obj2, str_val,
    ValModel, Value,
};

verus! {

/// Every `'` replaced by `"`.
pub open spec fn replace_quotes(s: Seq<char>) -> Seq<char> {
    s.map_values(|c: char| if c == '\'' { '"' } else { c })
}

/// One leading `(` and one trailing `)` removed, each only where present.
pub open spec fn strip_parens(s: Seq<char>) -> Seq<char> {
    let t = if s.len() > 0 && s[0] == '(' {
        s.drop_first()
    } else {
        s
    };
    if t.len() > 0 && t.last() == ')' {
        t.drop_last()
    } else {
        t
    }
}

/// `s` cut at every comma. The commas themselves are dropped; an input
/// without commas yields the one-element sequence of itself, so the result
/// is never empty.
pub open spec fn split_commas(s: Seq<char>) -> Seq<Seq<char>>
    decreases s.len(),
{
    let i = find_from(s, 0, ',');
    if 0 <= i < s.len() {
        seq![s.take(i)] + split_commas(s.skip(i + 1))
    } else {
        seq![s]
    }
}

/// The elements of a list-valued literal: the surrounding parenthesis pair
/// is stripped, every `'` becomes `"`, the rest is cut at commas and each
/// piece is trimmed of surrounding whitespace. Order and duplicates are
/// preserved; this never fails, even on malformed or empty lists.
pub open spec fn split_list(v: Seq<char>) -> Seq<Seq<char>> {
    split_commas(replace_quotes(strip_parens(v))).map_values(|e: Seq<char>| trim(e))
}

/// The query value of a comparison leaf `field op value`, before any
/// root wrapping.
pub open spec fn comparison_model(f: Seq<char>, op: Operator, v: Seq<char>) -> ValModel {
    match op {
        Operator::Eq | Operator::Like => match_model(f, v),
        Operator::Neq => ValModel::Obj(
            seq![
                ("bool"@, ValModel::Obj(seq![("must_not"@, ValModel::Arr(seq![match_model(f, v)]))])),
            ],
        ),
        Operator::Gte => range_model(f, "from"@, v),
        Operator::Lte => range_model(f, "to"@, v),
        Operator::Gt => range_model(f, "gt"@, v),
        Operator::Lt => range_model(f, "lt"@, v),
        Operator::In => terms_model(f, v),
        Operator::NotIn => ValModel::Obj(
            seq![("bool"@, ValModel::Obj(seq![("must_not"@, terms_model(f, v))]))],
        ),
    }
}

/// `{match: {f: {query: v, type: "phrase"}}}`
pub open spec fn match_model(f: Seq<char>, v: Seq<char>) -> ValModel {
    ValModel::Obj(
        seq![
            (
                "match"@,
                ValModel::Obj(
                    seq![
                        (
                            f,
                            ValModel::Obj(
                                seq![
                                    ("query"@, ValModel::Str(v)),
                                    ("type"@, ValModel::Str("phrase"@)),
                                ],
                            ),
                        ),
                    ],
                ),
            ),
        ],
    )
}

/// `{range: {f: {bound: v}}}`
pub open spec fn range_model(f: Seq<char>, bound: Seq<char>, v: Seq<char>) -> ValModel {
    ValModel::Obj(
        seq![("range"@, ValModel::Obj(seq![(f, ValModel::Obj(seq![(bound, ValModel::Str(v))]))]))],
    )
}

/// `{terms: {f: [elements of the list value]}}`
pub open spec fn terms_model(f: Seq<char>, v: Seq<char>) -> ValModel {
    ValModel::Obj(
        seq![
            (
                "terms"@,
                ValModel::Obj(
                    seq![(f, ValModel::Arr(split_list(v).map_values(|e: Seq<char>| ValModel::Str(e))))],
                ),
            ),
        ],
    )
}

/// The compiled query value of an expression. `And` nests its children
/// under `bool`/`must`, `Or` under `bool`/`should`; a comparison leaf at
/// the root is wrapped one further level under `bool`/`must`, while a
/// connective at the root already emits its own `bool` object and gets no
/// extra wrapper.
pub open spec fn compile(e: ExprModel, is_root: bool) -> ValModel
    decreases e,
{
    match e {
        ExprModel::And(l, r) => ValModel::Obj(
            seq![
                (
                    "bool"@,
                    ValModel::Obj(
                        seq![("must"@, ValModel::Arr(seq![compile(*l, false), compile(*r, false)]))],
                    ),
                ),
            ],
        ),
        ExprModel::Or(l, r) => ValModel::Obj(
            seq![
                (
                    "bool"@,
                    ValModel::Obj(
                        seq![("should"@, ValModel::Arr(seq![compile(*l, false), compile(*r, false)]))],
                    ),
                ),
            ],
        ),
        ExprModel::Comparison(f, op, v) => {
            let inner = comparison_model(f, op, v);
            if is_root {
                ValModel::Obj(
                    seq![("bool"@, ValModel::Obj(seq![("must"@, ValModel::Arr(seq![inner]))]))],
                )
            } else {
                inner
            }
        },
    }
}

/// A match query value is well-formed.
proof fn lemma_match_keys(f: Seq<char>, v: Seq<char>)
    ensures
        keys_unique(match_model(f, v)),
{
    reveal_strlit("query");
    reveal_strlit("type");
    assert("query"@.len() != "type"@.len());
    let leaf = ValModel::Obj(
        seq![("query"@, ValModel::Str(v)), ("type"@, ValModel::Str("phrase"@))],
    );
    lemma_obj2_keys("query"@, ValModel::Str(v), "type"@, ValModel::Str("phrase"@));
    lemma_obj1_keys(f, leaf);
    lemma_obj1_keys("match"@, ValModel::Obj(seq![(f, leaf)]));
}

/// A terms query value is well-formed.
proof fn lemma_terms_keys(f: Seq<char>, v: Seq<char>)
    ensures
        keys_unique(terms_model(f, v)),
{
    let elems = split_list(v).map_values(|e: Seq<char>| ValModel::Str(e));
    lemma_keys_unique_elems(elems);
    assert forall|i: int| 0 <= i < elems.len() implies keys_unique(#[trigger] elems[i]) by {
        assert(elems[i] == ValModel::Str(split_list(v)[i]));
    }
    lemma_obj1_keys(f, ValModel::Arr(elems));
    lemma_obj1_keys("terms"@, ValModel::Obj(seq![(f, ValModel::Arr(elems))]));
}

/// The query value of a comparison leaf is well-formed.
proof fn lemma_comparison_keys(f: Seq<char>, op: Operator, v: Seq<char>)
    ensures
        keys_unique(comparison_model(f, op, v)),
{
    match op {
        Operator::Eq | Operator::Like => lemma_match_keys(f, v),
        Operator::Neq => {
            lemma_match_keys(f, v);
            lemma_arr1_keys(match_model(f, v));
            lemma_obj1_keys("must_not"@, ValModel::Arr(seq![match_model(f, v)]));
            lemma_obj1_keys(
                "bool"@,
                ValModel::Obj(seq![("must_not"@, ValModel::Arr(seq![match_model(f, v)]))]),
            );
        },
        Operator::Gte | Operator::Lte | Operator::Gt | Operator::Lt => {
            let bound = if op == Operator::Gte {
                "from"@
            } else if op == Operator::Lte {
                "to"@
            } else if op == Operator::Gt {
                "gt"@
            } else {
                "lt"@
            };
            let leaf = ValModel::Obj(seq![(bound, ValModel::Str(v))]);
            lemma_obj1_keys(bound, ValModel::Str(v));
            lemma_obj1_keys(f, leaf);
            lemma_obj1_keys("range"@, ValModel::Obj(seq![(f, leaf)]));
        },
        Operator::In => lemma_terms_keys(f, v),
        Operator::NotIn => {
            lemma_terms_keys(f, v);
            lemma_obj1_keys("must_not"@, terms_model(f, v));
            lemma_obj1_keys("bool"@, ValModel::Obj(seq![("must_not"@, terms_model(f, v))]));
        },
    }
}

/// Every mapping of a compiled query value holds pairwise distinct keys:
/// the key-uniqueness invariant of the query value tree.
pub proof fn lemma_compile_keys_unique(e: ExprModel, is_root: bool)
    ensures
        keys_unique(compile(e, is_root)),
    decreases e,
{
    match e {
        ExprModel::And(l, r) => {
            lemma_compile_keys_unique(*l, false);
            lemma_compile_keys_unique(*r, false);
            let items = ValModel::Arr(seq![compile(*l, false), compile(*r, false)]);
            lemma_arr2_keys(compile(*l, false), compile(*r, false));
            lemma_obj1_keys("must"@, items);
            lemma_obj1_keys("bool"@, ValModel::Obj(seq![("must"@, items)]));
        },
        ExprModel::Or(l, r) => {
            lemma_compile_keys_unique(*l, false);
            lemma_compile_keys_unique(*r, false);
            let items = ValModel::Arr(seq![compile(*l, false), compile(*r, false)]);
            lemma_arr2_keys(compile(*l, false), compile(*r, false));
            lemma_obj1_keys("should"@, items);
            lemma_obj1_keys("bool"@, ValModel::Obj(seq![("should"@, items)]));
        },
        ExprModel::Comparison(f, op, v) => {
            lemma_comparison_keys(f, op, v);
            if is_root {
                let inner = comparison_model(f, op, v);
                lemma_arr1_keys(inner);
                lemma_obj1_keys("must"@, ValModel::Arr(seq![inner]));
                lemma_obj1_keys("bool"@, ValModel::Obj(seq![("must"@, ValModel::Arr(seq![inner]))]));
            }
        },
    }
}

/// The first position at or after `start` holding a comma, or the length
/// where there is none.
fn find_comma(chars: &Vec<char>, start: usize) -> (r: usize)
    requires
        start <= chars@.len(),
    ensures
        start <= r <= chars@.len(),
        r == find_from(chars@, start as int, ','),
        forall|k: int| start <= k < r ==> chars@[k] != ',',
        r == chars@.len() || chars@[r as int] == ',',
{
    let n: usize = chars.len();
    let mut i: usize = start;
    while i < n && chars[i] != ','
        invariant
            start <= i <= n,
            n == chars@.len(),
            forall|k: int| start <= k < i ==> chars@[k] != ',',
        decreases n - i,
    {
        i = i + 1;
    }
    proof {
        lemma_find_from_is_first(chars@, start as int, ',', i as int);
    }
    i
}

/// The piece `a..b` of `s`, trimmed of surrounding whitespace.
fn trim_piece(s: &str, chars: &Vec<char>, a: usize, b: usize) -> (r: String)
    requires
        chars@ == s@,
        a <= b <= chars@.len(),
    ensures
        r@ == trim(chars@.subrange(a as int, b as int)),
{
    let ghost e = chars@.subrange(a as int, b as int);
    let mut l: usize = a;
    while l < b && is_space_char(chars[l])
        invariant
            a <= l <= b <= chars@.len(),
            forall|k: int| a <= k < l ==> is_space(chars@[k]),
        decreases b - l,
    {
        l = l + 1;
    }
    let mut t: usize = b;
    while t > a && is_space_char(chars[t - 1])
        invariant
            a <= t <= b <= chars@.len(),
            forall|k: int| t <= k < b ==> is_space(chars@[k]),
        decreases t,
    {
        t = t - 1;
    }
    proof {
        lemma_ws_count_is_run(e, 0, l - a);
        lemma_ws_count_back_is_run(e, t - a, b - a);
    }
    if l <= t {
        let piece = s.substring_char(l, t);
        let r = String::from_str(piece);
        proof {
            assert(r@ =~= trim(e));
        }
        r
    } else {
        let r = String::new();
        proof {
            assert(r@ =~= trim(e));
        }
        r
    }
}

/// Cuts `s` at every comma from `start` on, trims each piece, and appends
/// the pieces to `out` in order.
fn split_pieces(s: &str, chars: &Vec<char>, start: usize, out: &mut Vec<String>)
    requires
        chars@ == s@,
        start <= chars@.len(),
    ensures
        final(out).deep_view() == old(out).deep_view() + split_commas(
            chars@.skip(start as int),
        ).map_values(|e: Seq<char>| trim(e)),
    decreases chars@.len() - start,
{
    let ghost u = chars@.skip(start as int);
    let j = find_comma(chars, start);
    let piece = trim_piece(s, chars, start, j);
    proof {
        lemma_find_from_is_first(u, 0, ',', j - start);
        assert(u.take(j - start) =~= chars@.subrange(start as int, j as int));
    }
    out.push(piece);
    if j < chars.len() {
        proof {
            assert(u.skip(j - start + 1) =~= chars@.skip(j + 1));
        }
        split_pieces(s, chars, j + 1, out);
        proof {
            let f = |e: Seq<char>| trim(e);
            assert(final(out).deep_view() =~= old(out).deep_view() + split_commas(u).map_values(
                f,
            ));
        }
    } else {
        proof {
            let f = |e: Seq<char>| trim(e);
            assert(split_commas(u) == seq![u]);
            assert(final(out).deep_view() =~= old(out).deep_view() + split_commas(u).map_values(
                f,
            ));
        }
    }
}

/// The elements of a list-valued literal, per [`split_list`].
fn split_list_exec(v: &str) -> (r: Vec<String>)
    ensures
        r.deep_view() == split_list(v@),
{
    let chars = str_to_chars(v);
    let n = chars.len();
    let a: usize = if n > 0 && chars[0] == '(' {
        1
    } else {
        0
    };
    let b: usize = if n > a && chars[n - 1] == ')' {
        n - 1
    } else {
        n
    };
    proof {
        assert(strip_parens(chars@) =~= chars@.subrange(a as int, b as int));
    }
    // every `'` becomes `"`
    let mut rep = String::new();
    let mut i: usize = a;
    while i < b
        invariant
            a <= i <= b <= chars@.len(),
            chars@ == v@,
            rep@ == replace_quotes(chars@.subrange(a as int, i as int)),
        decreases b - i,
    {
        if chars[i] == '\'' {
            rep.append("\"");
        } else {
            rep.append(v.substring_char(i, i + 1));
        }
        proof {
            reveal_strlit("\"");
            assert(rep@ =~= replace_quotes(chars@.subrange(a as int, i + 1)));
        }
        i = i + 1;
    }
    let rep_chars = str_to_chars(rep.as_str());
    let mut out: Vec<String> = Vec::new();
    split_pieces(rep.as_str(), &rep_chars, 0, &mut out);
    proof {
        assert(rep_chars@.skip(0) =~= rep@);
        assert(out.deep_view() =~= split_list(v@));
    }
    out
}

/// `{match: {f: {query: v, type: "phrase"}}}`
fn match_value(f: String, v: String) -> (r: Value)
    ensures
        r@ == match_model(f@, v@),
{
    obj1("match", obj1s(f, obj2("query", Value::Str(v), "type", str_val("phrase"))))
}

/// `{range: {f: {bound: v}}}`
fn range_value(f: String, bound: &str, v: String) -> (r: Value)
    ensures
        r@ == range_model(f@, bound@, v@),
{
    obj1("range", obj1s(f, obj1(bound, Value::Str(v))))
}

/// `{terms: {f: [elements of the list value]}}`
fn terms_value(f: String, v: String) -> (r: Value)
    ensures
        r@ == terms_model(f@, v@),
{
    let elems = split_list_exec(v.as_str());
    let mut items: Vec<Value> = Vec::new();
    let mut i: usize = 0;
    while i < elems.len()
        invariant
            i <= elems@.len(),
            items@.len() == i,
            forall|j: int| 0 <= j < i ==> items@[j] == Value::Str(#[trigger] elems@[j]),
        decreases elems@.len() - i,
    {
        items.push(Value::Str(elems[i].clone()));
        i = i + 1;
    }
    proof {
        lemma_elems_model(items@);
        assert(elems_model(items@) =~= split_list(v@).map_values(
            |e: Seq<char>| ValModel::Str(e),
        ));
    }
    obj1("terms", obj1s(f, Value::Arr(items)))
}

/// The query value of a comparison leaf, before any root wrapping.
fn comparison_value(f: String, op: Operator, v: String) -> (r: Value)
    ensures
        r@ == comparison_model(f@, op, v@),
{
    match op {
        Operator::Eq | Operator::Like => match_value(f, v),
        Operator::Neq => obj1("bool", obj1("must_not", arr1(match_value(f, v)))),
        Operator::Gte => range_value(f, "from", v),
        Operator::Lte => range_value(f, "to", v),
        Operator::Gt => range_value(f, "gt", v),
        Operator::Lt => range_value(f, "lt", v),
        Operator::In => terms_value(f, v),
        Operator::NotIn => obj1("bool", obj1("must_not", terms_value(f, v))),
    }
}

/// Compiles an expression tree into its query value. `is_root` is true
/// only at the outermost call: a bare comparison at the root is wrapped
/// one further level under `bool`/`must`, while a connective already
/// emits its own `bool` object. All recursive calls pass `is_root` false.
pub fn walk_tree(expr: Expression, is_root: bool) -> (r: Value)
    ensures
        r@ == compile(expr@, is_root),
    decreases expr,
{
    match expr {
        Expression::And(l, rr) => {
            let lv = walk_tree(*l, false);
            let rv = walk_tree(*rr, false);
            obj1("bool", obj1("must", arr2(lv, rv)))
        },
        Expression::Or(l, rr) => {
            let lv = walk_tree(*l, false);
            let rv = walk_tree(*rr, false);
            obj1("bool", obj1("should", arr2(lv, rv)))
        },
        Expression::Comparison(f, op, v) => {
            let inner = comparison_value(f, op, v);
            if is_root {
                obj1("bool", obj1("must", arr1(inner)))
            } else {
                inner
            }
        },
    }
}

} // verus!
