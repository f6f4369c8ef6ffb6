//! The end-to-end tests of `convert`: parse, compile, and envelope
//! assembly, over the full directive surface.

use elastic_query::{convert, Value};

fn s(x: &str) -> Value {
    Value::Str(x.to_string())
}

fn obj(entries: Vec<(&str, Value)>) -> Value {
    Value::Obj(entries.into_iter().map(|(k, v)| (k.to_string(), v)).collect())
}

fn arr(items: Vec<Value>) -> Value {
    Value::Arr(items)
}

/// `{match: {f: {query: v, type: "phrase"}}}`
fn m(f: &str, v: &str) -> Value {
    obj(vec![(
        "match",
        obj(vec![(f, obj(vec![("query", s(v)), ("type", s("phrase"))]))]),
    )])
}

/// `{bool: {must: [...]}}`
fn must(items: Vec<Value>) -> Value {
    obj(vec![("bool", obj(vec![("must", arr(items))]))])
}

/// `{terms: {f: [...]}}`
fn terms(f: &str, items: Vec<&str>) -> Value {
    obj(vec![(
        "terms",
        obj(vec![(f, arr(items.into_iter().map(s).collect()))]),
    )])
}

/// The envelope without directives: `{query, from, size}`.
fn envelope(query: Value, from: i64, size: i64) -> Value {
    obj(vec![
        ("query", query),
        ("from", Value::Int(from)),
        ("size", Value::Int(size)),
    ])
}

fn sort_entry(f: &str, d: &str) -> Value {
    obj(vec![(f, s(d))])
}

struct TestCase<'a> {
    input: (&'a str, i32, i32, Vec<&'a str>, Vec<&'a str>), // query, from, size, sort, agg
    output: Value,
    comment: &'a str,
}

#[test]
fn test_convert() {
    let with_sort = |q: Value, from: i64, size: i64, sort: Vec<Value>| {
        let mut e = envelope(q, from, size);
        if let Value::Obj(ref mut fields) = e {
            fields.push(("sort".to_string(), arr(sort)));
        }
        e
    };
    let aggs_ab = obj(vec![(
        "a",
        obj(vec![
            (
                "terms",
                obj(vec![("field", s("a")), ("size", Value::Int(200))]),
            ),
            (
                "aggregations",
                obj(vec![(
                    "b",
                    obj(vec![(
                        "terms",
                        obj(vec![("field", s("b")), ("size", Value::Int(0))]),
                    )]),
                )]),
            ),
        ]),
    )]);
    let mut with_aggs = envelope(must(vec![terms("a", vec!["1", "2", "3"])]), 1000, 1000);
    if let Value::Obj(ref mut fields) = with_aggs {
        fields.push(("aggregations".to_string(), aggs_ab));
    }

    let test_cases: Vec<TestCase> = vec![
        TestCase {
            input: ("a=1", 1000, 1000, vec![], vec![]),
            output: envelope(must(vec![m("a", "1")]), 1000, 1000),
            comment: "equal expression test",
        },
        TestCase {
            input: ("a=1", 1000, 1000, vec!["a asc", "b desc"], vec![]),
            output: with_sort(
                must(vec![m("a", "1")]),
                1000,
                1000,
                vec![sort_entry("a", "asc"), sort_entry("b", "desc")],
            ),
            comment: "sort test",
        },
        TestCase {
            input: ("a=1", 0, 1000, vec!["a asc", "b"], vec![]),
            output: with_sort(
                must(vec![m("a", "1")]),
                0,
                1000,
                vec![sort_entry("a", "asc"), sort_entry("b", "asc")],
            ),
            comment: "sort test",
        },
        TestCase {
            input: ("a in (1,2,3)", 1000, 1000, vec![], vec![]),
            output: envelope(must(vec![terms("a", vec!["1", "2", "3"])]), 1000, 1000),
            comment: "in expression test",
        },
        TestCase {
            input: ("a in (   1, 2,  3)", 1000, 1000, vec![], vec![]),
            output: envelope(must(vec![terms("a", vec!["1", "2", "3"])]), 1000, 1000),
            comment: "auto trim space test",
        },
        TestCase {
            input: ("a in (   1, 2,  3)", 1000, 1000, vec![], vec!["a", "b"]),
            output: with_aggs,
            comment: "aggregation test",
        },
        TestCase {
            input: ("a = 1 and (b = 2 and (c = 3))", 0, 1000, vec![], vec![]),
            output: envelope(
                must(vec![m("a", "1"), must(vec![m("b", "2"), m("c", "3")])]),
                0,
                1000,
            ),
            comment: "paren expr test",
        },
        TestCase {
            input: ("a = 1 and b = 2 and c = 3", 0, 1000, vec![], vec![]),
            output: envelope(
                must(vec![must(vec![m("a", "1"), m("b", "2")]), m("c", "3")]),
                0,
                1000,
            ),
            comment: "left association test",
        },
        TestCase {
            input: ("a = 1 and b = 2 and c = 3 and d = 4", 0, 1000, vec![], vec![]),
            output: envelope(
                must(vec![
                    must(vec![must(vec![m("a", "1"), m("b", "2")]), m("c", "3")]),
                    m("d", "4"),
                ]),
                0,
                1000,
            ),
            comment: "left association test",
        },
    ];
    test_cases.into_iter().for_each(|case| {
        let output = convert(
            case.input.0.to_string(),
            case.input.1,
            case.input.2,
            case.input.3.clone(),
            case.input.4.clone(),
        )
        .unwrap();
        assert_eq!(output, case.output, "{}", case.comment);
    });
}

#[test]
fn from_size_pass_through_unvalidated() {
    let out = convert("a=1".to_string(), -7, -1, vec![], vec![]).unwrap();
    assert_eq!(out, envelope(must(vec![m("a", "1")]), -7, -1));
}

#[test]
fn or_groups_under_should() {
    let out = convert("a=1 or b=2".to_string(), 0, 10, vec![], vec![]).unwrap();
    let should = obj(vec![(
        "bool",
        obj(vec![("should", arr(vec![m("a", "1"), m("b", "2")]))]),
    )]);
    assert_eq!(out, envelope(should, 0, 10));
}

#[test]
fn and_binds_tighter_than_or() {
    let out = convert("a=1 or b=2 and c=3".to_string(), 0, 10, vec![], vec![]).unwrap();
    let should = obj(vec![(
        "bool",
        obj(vec![(
            "should",
            arr(vec![m("a", "1"), must(vec![m("b", "2"), m("c", "3")])]),
        )]),
    )]);
    assert_eq!(out, envelope(should, 0, 10));
}

#[test]
fn keywords_are_case_insensitive() {
    let lower = convert("a=1 and b=2 or c=3".to_string(), 0, 10, vec![], vec![]).unwrap();
    let upper = convert("a=1 AND b=2 OR c=3".to_string(), 0, 10, vec![], vec![]).unwrap();
    assert_eq!(lower, upper);
}

#[test]
fn sort_stands_before_aggregations_in_the_envelope() {
    let out = convert("a=1".to_string(), 2, 3, vec!["b"], vec!["c"]).unwrap();
    let aggs_c = obj(vec![(
        "c",
        obj(vec![(
            "terms",
            obj(vec![("field", s("c")), ("size", Value::Int(200))]),
        )]),
    )]);
    let expected = obj(vec![
        ("query", must(vec![m("a", "1")])),
        ("from", Value::Int(2)),
        ("size", Value::Int(3)),
        ("sort", arr(vec![sort_entry("b", "asc")])),
        ("aggregations", aggs_c),
    ]);
    assert_eq!(out, expected);
}

#[test]
fn syntax_error_reports_offset() {
    let err = convert("a=".to_string(), 0, 10, vec![], vec![]).unwrap_err();
    assert_eq!(err.location, 2);
    assert_eq!(err.expected, "");

    let err = convert(String::new(), 0, 10, vec![], vec![]).unwrap_err();
    assert_eq!(err.location, 0);
    assert_eq!(err.expected, "");
}

#[test]
fn trailing_remainder_is_an_error() {
    let err = convert("a=1 b=2".to_string(), 0, 10, vec![], vec![]).unwrap_err();
    assert_eq!(err.location, 4);

    let err = convert("(a=1".to_string(), 0, 10, vec![], vec![]).unwrap_err();
    assert_eq!(err.location, 4);
}
