//! Tests of the individual components: the parser, the compiler, and the
//! two directive builders.

use elastic_query::{build_aggs, build_sort, walk_tree, ExprParser, Expression, Operator, Value};

fn s(x: &str) -> Value {
    Value::Str(x.to_string())
}

fn obj(entries: Vec<(&str, Value)>) -> Value {
    Value::Obj(entries.into_iter().map(|(k, v)| (k.to_string(), v)).collect())
}

fn arr(items: Vec<Value>) -> Value {
    Value::Arr(items)
}

fn m(f: &str, v: &str) -> Value {
    obj(vec![(
        "match",
        obj(vec![(f, obj(vec![("query", s(v)), ("type", s("phrase"))]))]),
    )])
}

fn must(items: Vec<Value>) -> Value {
    obj(vec![("bool", obj(vec![("must", arr(items))]))])
}

fn terms(f: &str, items: Vec<&str>) -> Value {
    obj(vec![(
        "terms",
        obj(vec![(f, arr(items.into_iter().map(s).collect()))]),
    )])
}

fn cmp(f: &str, op: Operator, v: &str) -> Expression {
    Expression::Comparison(f.to_string(), op, v.to_string())
}

#[test]
fn root_comparison_is_double_wrapped() {
    let out = walk_tree(cmp("field", Operator::Eq, "value"), true);
    assert_eq!(out, must(vec![m("field", "value")]));
}

#[test]
fn inner_comparison_is_not_wrapped() {
    let out = walk_tree(cmp("field", Operator::Eq, "value"), false);
    assert_eq!(out, m("field", "value"));
}

#[test]
fn connective_at_root_gets_no_extra_wrapper() {
    let e = Expression::And(
        Box::new(cmp("a", Operator::Eq, "1")),
        Box::new(cmp("b", Operator::Eq, "2")),
    );
    let out = walk_tree(e, true);
    assert_eq!(out, must(vec![m("a", "1"), m("b", "2")]));
}

#[test]
fn like_compiles_as_match() {
    let out = walk_tree(cmp("a", Operator::Like, "x"), false);
    assert_eq!(out, m("a", "x"));
}

#[test]
fn neq_compiles_as_must_not_list() {
    let out = walk_tree(cmp("a", Operator::Neq, "1"), false);
    let expected = obj(vec![(
        "bool",
        obj(vec![("must_not", arr(vec![m("a", "1")]))]),
    )]);
    assert_eq!(out, expected);
}

#[test]
fn range_operators_pick_their_bound() {
    assert_eq!(
        walk_tree(cmp("a", Operator::Gte, "5"), false),
        obj(vec![("range", obj(vec![("a", obj(vec![("from", s("5"))]))]))]),
    );
    assert_eq!(
        walk_tree(cmp("a", Operator::Lte, "5"), false),
        obj(vec![("range", obj(vec![("a", obj(vec![("to", s("5"))]))]))]),
    );
    assert_eq!(
        walk_tree(cmp("a", Operator::Gt, "5"), false),
        obj(vec![("range", obj(vec![("a", obj(vec![("gt", s("5"))]))]))]),
    );
    assert_eq!(
        walk_tree(cmp("a", Operator::Lt, "5"), false),
        obj(vec![("range", obj(vec![("a", obj(vec![("lt", s("5"))]))]))]),
    );
}

#[test]
fn not_in_wraps_terms_without_a_list() {
    let out = walk_tree(cmp("a", Operator::NotIn, "(1,2)"), false);
    let expected = obj(vec![(
        "bool",
        obj(vec![("must_not", terms("a", vec!["1", "2"]))]),
    )]);
    assert_eq!(out, expected);
}

#[test]
fn list_quotes_become_double_quotes() {
    let out = walk_tree(cmp("a", Operator::In, "('x','y')"), false);
    assert_eq!(out, terms("a", vec!["\"x\"", "\"y\""]));
}

#[test]
fn list_keeps_duplicates_and_order() {
    let out = walk_tree(cmp("a", Operator::In, "(2,1,2)"), false);
    assert_eq!(out, terms("a", vec!["2", "1", "2"]));
}

#[test]
fn malformed_lists_split_leniently() {
    assert_eq!(
        walk_tree(cmp("a", Operator::In, "()"), false),
        terms("a", vec![""]),
    );
    assert_eq!(
        walk_tree(cmp("a", Operator::In, "(1,,2)"), false),
        terms("a", vec!["1", "", "2"]),
    );
    assert_eq!(
        walk_tree(cmp("a", Operator::In, "1"), false),
        terms("a", vec!["1"]),
    );
}

#[test]
fn parser_builds_left_leaning_chains() {
    let e = ExprParser::parse("a=1 and b=2 and c=3").unwrap();
    let expected = Expression::And(
        Box::new(Expression::And(
            Box::new(cmp("a", Operator::Eq, "1")),
            Box::new(cmp("b", Operator::Eq, "2")),
        )),
        Box::new(cmp("c", Operator::Eq, "3")),
    );
    assert_eq!(e, expected);
}

#[test]
fn parentheses_leave_no_trace() {
    let plain = ExprParser::parse("a=1").unwrap();
    let wrapped = ExprParser::parse("((a=1))").unwrap();
    assert_eq!(plain, wrapped);
}

#[test]
fn parser_resolves_every_operator() {
    let ops = vec![
        ("a = 1", Operator::Eq, "1"),
        ("a != 1", Operator::Neq, "1"),
        ("a <> 1", Operator::Neq, "1"),
        ("a > 1", Operator::Gt, "1"),
        ("a >= 1", Operator::Gte, "1"),
        ("a < 1", Operator::Lt, "1"),
        ("a <= 1", Operator::Lte, "1"),
        ("a like x", Operator::Like, "x"),
        ("a in (1,2)", Operator::In, "(1,2)"),
        ("a not in (1,2)", Operator::NotIn, "(1,2)"),
        ("a NOT IN (1,2)", Operator::NotIn, "(1,2)"),
        ("a LIKE x", Operator::Like, "x"),
    ];
    for (input, op, value) in ops {
        let e = ExprParser::parse(input).unwrap();
        assert_eq!(e, cmp("a", op, value), "{}", input);
    }
}

#[test]
fn not_and_in_may_be_parted_by_whitespace() {
    let e = ExprParser::parse("a not   in (1,2)").unwrap();
    assert_eq!(e, cmp("a", Operator::NotIn, "(1,2)"));
}

#[test]
fn values_may_hold_any_unquoted_text() {
    let e = ExprParser::parse("a = caf\u{e9}").unwrap();
    assert_eq!(e, cmp("a", Operator::Eq, "caf\u{e9}"));
}

#[test]
fn quoted_values_are_kept_verbatim() {
    let e = ExprParser::parse(r#"a = "2121""#).unwrap();
    assert_eq!(e, cmp("a", Operator::Eq, "\"2121\""));

    let e = ExprParser::parse("a = 'x y'").unwrap();
    assert_eq!(e, cmp("a", Operator::Eq, "'x y'"));
}

#[test]
fn list_values_keep_their_parentheses() {
    let e = ExprParser::parse("a in (1, 2)").unwrap();
    assert_eq!(e, cmp("a", Operator::In, "(1, 2)"));
}

#[test]
fn parse_error_offsets() {
    assert_eq!(ExprParser::parse("").unwrap_err().location, 0);
    assert_eq!(ExprParser::parse("a").unwrap_err().location, 1);
    assert_eq!(ExprParser::parse("a=").unwrap_err().location, 2);
    assert_eq!(ExprParser::parse("=1").unwrap_err().location, 0);
    assert_eq!(ExprParser::parse("a=1 and").unwrap_err().location, 7);
    assert_eq!(ExprParser::parse("a in (1,2").unwrap_err().location, 9);
    assert_eq!(ExprParser::parse("a = \"x").unwrap_err().location, 6);
    assert_eq!(ExprParser::parse("a ~ 1").unwrap_err().location, 2);
}

#[test]
fn sort_defaults_missing_direction_to_asc() {
    let out = build_sort(vec!["a asc", "b"]);
    let expected = arr(vec![
        obj(vec![("a", s("asc"))]),
        obj(vec![("b", s("asc"))]),
    ]);
    assert_eq!(out, expected);
}

#[test]
fn sort_passes_directions_through_unvalidated() {
    let out = build_sort(vec!["a descc", "b  DESC   extra"]);
    let expected = arr(vec![
        obj(vec![("a", s("descc"))]),
        obj(vec![("b", s("DESC"))]),
    ]);
    assert_eq!(out, expected);
}

#[test]
fn aggs_nest_outermost_first() {
    let out = build_aggs(vec!["a", "b"]);
    let expected = obj(vec![(
        "a",
        obj(vec![
            (
                "terms",
                obj(vec![("field", s("a")), ("size", Value::Int(200))]),
            ),
            (
                "aggregations",
                obj(vec![(
                    "b",
                    obj(vec![(
                        "terms",
                        obj(vec![("field", s("b")), ("size", Value::Int(0))]),
                    )]),
                )]),
            ),
        ]),
    )]);
    assert_eq!(out, expected);
}

#[test]
fn single_field_aggs_have_no_nesting() {
    let out = build_aggs(vec!["a"]);
    let expected = obj(vec![(
        "a",
        obj(vec![(
            "terms",
            obj(vec![("field", s("a")), ("size", Value::Int(200))]),
        )]),
    )]);
    assert_eq!(out, expected);
}

#[test]
fn empty_aggs_build_an_empty_mapping() {
    assert_eq!(build_aggs(vec![]), obj(vec![]));
}

#[test]
fn three_field_aggs_use_size_zero_below_the_top() {
    let out = build_aggs(vec!["a", "b", "c"]);
    let inner_c = obj(vec![(
        "c",
        obj(vec![(
            "terms",
            obj(vec![("field", s("c")), ("size", Value::Int(0))]),
        )]),
    )]);
    let inner_b = obj(vec![(
        "b",
        obj(vec![
            (
                "terms",
                obj(vec![("field", s("b")), ("size", Value::Int(0))]),
            ),
            ("aggregations", inner_c),
        ]),
    )]);
    let expected = obj(vec![(
        "a",
        obj(vec![
            (
                "terms",
                obj(vec![("field", s("a")), ("size", Value::Int(200))]),
            ),
            ("aggregations", inner_b),
        ]),
    )]);
    assert_eq!(out, expected);
}
