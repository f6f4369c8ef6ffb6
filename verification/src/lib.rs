//! Compiles a small textual filter-query language (field comparisons joined
//! by `and`/`or` with parentheses) into the nested boolean query structure of
//! a document search engine, together with builders for sort directives and
//! drill-down aggregations.
//!
//! The pipeline runs strictly downstream: raw text is parsed into an
//! [`Expression`] tree, the tree is compiled into a [`Value`], and the
//! value is placed in an envelope beside `from`, `size` and the optional
//! sort and aggregation directives. Every step is a pure function; the
//! only failure is a syntax error, reported with the offset at which
//! matching could not continue.

use vstd::prelude::*;

pub mod ast;
pub mod compiler;
pub mod directives;
pub mod grammar;
pub mod parser;
pub mod text;
pub mod value;

pub use ast::{ExprModel, Expression, Operator};
pub use compiler::walk_tree;
pub use directives::{build_aggs, build_sort};
pub use parser::{ExprParser, ParseError};
pub use value::{ValModel, Value};

use crate::compiler::{compile, lemma_compile_keys_unique};
use crate::directives::{
    aggs_model, has_field, lemma_aggs_keys_unique, lemma_sort_keys_unique, sort_model,
};
use crate::grammar::parse_query;
use crate::value::{
    distinct_keys, entries_model, keys_unique, lemma_entries_model, lemma_keys_unique_entries,
};
use vstd::string::StringExecFns;

verus! {

/// The envelope placed around a compiled query: `query`, `from` and
/// `size` always; `sort` and `aggregations` only when their source lists
/// are non-empty — never as empty collections.
pub open spec fn envelope_model(
    e: ExprModel,
    from: int,
    size: int,
    sort: Seq<Seq<char>>,
    aggs: Seq<Seq<char>>,
) -> ValModel {
    let base = seq![
        ("query"@, compile(e, true)),
        ("from"@, ValModel::Int(from)),
        ("size"@, ValModel::Int(size)),
    ];
    let with_sort = if sort.len() > 0 {
        base.push(("sort"@, sort_model(sort)))
    } else {
        base
    };
    let with_aggs = if aggs.len() > 0 {
        with_sort.push(("aggregations"@, aggs_model(aggs)))
    } else {
        with_sort
    };
    ValModel::Obj(with_aggs)
}

/// For all inputs, `from` and `size` pass through to the envelope
/// unchanged and unvalidated, whatever the query and the directives.
pub proof fn lemma_from_size_pass_through(
    e: ExprModel,
    from: int,
    size: int,
    sort: Seq<Seq<char>>,
    aggs: Seq<Seq<char>>,
)
    ensures
        envelope_model(e, from, size, sort, aggs) matches ValModel::Obj(fields)
            && fields[1] == ("from"@, ValModel::Int(from))
            && fields[2] == ("size"@, ValModel::Int(size)),
{
}

/// Every mapping of the assembled envelope holds pairwise distinct keys,
/// from the envelope itself down through the compiled query and the
/// directives.
pub proof fn lemma_envelope_keys_unique(
    e: ExprModel,
    from: int,
    size: int,
    sort: Seq<Seq<char>>,
    aggs: Seq<Seq<char>>,
)
    ensures
        keys_unique(envelope_model(e, from, size, sort, aggs)),
{
    lemma_compile_keys_unique(e, true);
    lemma_sort_keys_unique(sort);
    lemma_aggs_keys_unique(aggs);
    reveal_strlit("query");
    reveal_strlit("from");
    reveal_strlit("size");
    reveal_strlit("sort");
    reveal_strlit("aggregations");
    assert("query"@.len() != "from"@.len());
    assert("query"@.len() != "size"@.len());
    assert("query"@.len() != "sort"@.len());
    assert("query"@.len() != "aggregations"@.len());
    assert("from"@.len() != "aggregations"@.len());
    assert("size"@.len() != "aggregations"@.len());
    assert("sort"@.len() != "aggregations"@.len());
    assert("from"@[0] != "size"@[0]);
    assert("from"@[0] != "sort"@[0]);
    assert("size"@[1] != "sort"@[1]);
    let base = seq![
        ("query"@, compile(e, true)),
        ("from"@, ValModel::Int(from)),
        ("size"@, ValModel::Int(size)),
    ];
    let with_sort = if sort.len() > 0 {
        base.push(("sort"@, sort_model(sort)))
    } else {
        base
    };
    let with_aggs = if aggs.len() > 0 {
        with_sort.push(("aggregations"@, aggs_model(aggs)))
    } else {
        with_sort
    };
    assert(distinct_keys(with_aggs));
    lemma_keys_unique_entries(with_aggs);
    assert forall|i: int| 0 <= i < with_aggs.len() implies keys_unique(
        (#[trigger] with_aggs[i]).1,
    ) by {
        if i == 0 {
            assert(with_aggs[i].1 == compile(e, true));
        }
    }
}

/// Converts user input to the search engine's query DSL: parses `query`,
/// compiles the expression tree, and assembles the envelope. `sort` and
/// `aggs` are attached only when non-empty. The one error is a syntax
/// error in `query`, propagated unchanged.
///
/// Every raw sort spec must hold a field name: one that is empty or all
/// whitespace has no sort key.
pub fn convert(query: String, from: i32, size: i32, sort: Vec<&str>, aggs: Vec<&str>) -> (r:
    Result<Value, ParseError>)
    requires
        forall|i: int| 0 <= i < sort@.len() ==> has_field(#[trigger] sort@[i]@),
    ensures
        match r {
            Ok(v) => ({
                &&& parse_query(query@) matches Ok(m) && v@ == envelope_model(
                    m,
                    from as int,
                    size as int,
                    sort.deep_view(),
                    aggs.deep_view(),
                )
                &&& keys_unique(v@)
            }),
            Err(err) => ({
                &&& parse_query(query@) matches Err(p) && p == err.location as int
                &&& err.expected@ == Seq::<char>::empty()
            }),
        },
{
    let ghost sort_view = sort.deep_view();
    let ghost aggs_view = aggs.deep_view();
    match ExprParser::parse(query.as_str()) {
        Ok(expr) => {
            let dsl = walk_tree(expr, true);
            let ghost dslm = dsl@;
            let mut fields: Vec<(String, Value)> = Vec::new();
            fields.push((String::from_str("query"), dsl));
            fields.push((String::from_str("from"), Value::Int(from as i64)));
            fields.push((String::from_str("size"), Value::Int(size as i64)));
            let has_sort = sort.len() > 0;
            let has_aggs = aggs.len() > 0;
            proof {
                assert(sort_view.len() == sort@.len());
                assert(aggs_view.len() == aggs@.len());
            }
            if has_sort {
                fields.push((String::from_str("sort"), build_sort(sort)));
            }
            if has_aggs {
                fields.push((String::from_str("aggregations"), build_aggs(aggs)));
            }
            proof {
                lemma_entries_model(fields@);
                let base = seq![
                    ("query"@, dslm),
                    ("from"@, ValModel::Int(from as int)),
                    ("size"@, ValModel::Int(size as int)),
                ];
                let with_sort = if sort_view.len() > 0 {
                    base.push(("sort"@, sort_model(sort_view)))
                } else {
                    base
                };
                let with_aggs = if aggs_view.len() > 0 {
                    with_sort.push(("aggregations"@, aggs_model(aggs_view)))
                } else {
                    with_sort
                };
                assert(entries_model(fields@) =~= with_aggs);
                match parse_query(query@) {
                    Ok(m) => lemma_envelope_keys_unique(
                        m,
                        from as int,
                        size as int,
                        sort_view,
                        aggs_view,
                    ),
                    Err(_) => (),
                }
            }
            Ok(Value::Obj(fields))
        },
        Err(err) => Err(err),
    }
}

} // verus!
