//! The two auxiliary directive builders: sort order and drill-down
//! aggregations.

use vstd::prelude::*;
use vstd::string::{StrSliceExecFns, StringExecFns};

use crate::text::{str_to_chars, skip_token, skip_ws, token_count, ws_count};
use crate::value::{
    keys_unique, lemma_elems_model, lemma_keys_unique_elems, lemma_keys_unique_entries,
    lemma_obj1_keys, lemma_obj2_keys, elems_model, entries_model, obj1s, obj2, ValModel, Value,
};

verus! {

/// Whether a sort spec holds a field name at all: some character outside
/// its leading whitespace run.
pub open spec fn has_field(s: Seq<char>) -> bool {
    ws_count(s, 0) < s.len()
}

/// The single-key sort spec of one raw `"field [direction]"` string: the
/// first whitespace-separated token keys the second; a missing direction
/// defaults to `"asc"`, a present one passes through verbatim and
/// unvalidated, and tokens after the second are ignored.
pub open spec fn sort_entry_model(s: Seq<char>) -> ValModel
    recommends
        has_field(s),
{
    let a = ws_count(s, 0) as int;
    let f = token_count(s, a) as int;
    let field = s.subrange(a, a + f);
    let b = a + f + ws_count(s, a + f);
    let d = token_count(s, b) as int;
    let dir = if d == 0 {
        "asc"@
    } else {
        s.subrange(b, b + d)
    };
    ValModel::Obj(seq![(field, ValModel::Str(dir))])
}

/// The ordered list of single-key sort specs of the raw sort strings.
/// Output order equals input order; it sets the multi-key sort priority.
pub open spec fn sort_model(specs: Seq<Seq<char>>) -> ValModel {
    ValModel::Arr(specs.map_values(|s: Seq<char>| sort_entry_model(s)))
}

/// Converts raw `"field [direction]"` strings into an ordered list of
/// single-key sort specs, per [`sort_model`].
pub fn build_sort(sort: Vec<&str>) -> (r: Value)
    requires
        forall|i: int| 0 <= i < sort@.len() ==> has_field(#[trigger] sort@[i]@),
    ensures
        r@ == sort_model(sort.deep_view()),
{
    let mut items: Vec<Value> = Vec::new();
    let mut i: usize = 0;
    while i < sort.len()
        invariant
            i <= sort@.len(),
            items@.len() == i,
            forall|i0: int| 0 <= i0 < sort@.len() ==> has_field(#[trigger] sort@[i0]@),
            forall|j: int|
                0 <= j < i ==> (#[trigger] items@[j])@ == sort_entry_model(sort@[j]@),
        decreases sort@.len() - i,
    {
        items.push(sort_entry_value(sort[i]));
        i = i + 1;
    }
    proof {
        lemma_elems_model(items@);
        assert(elems_model(items@) =~= sort.deep_view().map_values(
            |s: Seq<char>| sort_entry_model(s),
        ));
    }
    Value::Arr(items)
}

/// The sort spec of one raw string, per [`sort_entry_model`].
fn sort_entry_value(s: &str) -> (r: Value)
    requires
        has_field(s@),
    ensures
        r@ == sort_entry_model(s@),
{
    let chars = str_to_chars(s);
    let a = skip_ws(&chars, 0);
    let fe = skip_token(&chars, a);
    let field = String::from_str(s.substring_char(a, fe));
    let b = skip_ws(&chars, fe);
    let de = skip_token(&chars, b);
    let dir = if de == b {
        String::from_str("asc")
    } else {
        String::from_str(s.substring_char(b, de))
    };
    obj1s(field, Value::Str(dir))
}

/// One sort spec is well-formed: a single-key mapping.
proof fn lemma_sort_entry_keys(s: Seq<char>)
    ensures
        keys_unique(sort_entry_model(s)),
{
    let a = ws_count(s, 0) as int;
    let f = token_count(s, a) as int;
    let b = a + f + ws_count(s, a + f);
    let d = token_count(s, b) as int;
    let dir = if d == 0 {
        "asc"@
    } else {
        s.subrange(b, b + d)
    };
    lemma_obj1_keys(s.subrange(a, a + f), ValModel::Str(dir));
}

/// Every mapping of a sort directive holds pairwise distinct keys: each
/// entry keys one field alone.
pub proof fn lemma_sort_keys_unique(specs: Seq<Seq<char>>)
    ensures
        keys_unique(sort_model(specs)),
{
    let entries = specs.map_values(|s: Seq<char>| sort_entry_model(s));
    lemma_keys_unique_elems(entries);
    assert forall|i: int| 0 <= i < entries.len() implies keys_unique(#[trigger] entries[i]) by {
        assert(entries[i] == sort_entry_model(specs[i]));
        lemma_sort_entry_keys(specs[i]);
    }
}

/// The nested drill-down aggregation of an ordered field list: each field
/// buries the next one level deeper under its own `aggregations` key. The
/// first (outermost) field uses bucket size 200; every later field uses
/// bucket size 0. An empty field list yields an empty mapping.
pub open spec fn aggs_model(fields: Seq<Seq<char>>) -> ValModel {
    if fields.len() == 0 {
        ValModel::Obj(Seq::empty())
    } else {
        aggs_nest_model(fields, 200)
    }
}

/// The aggregation of a non-empty field list whose first field uses
/// bucket size `head_size`; every deeper field uses bucket size 0.
pub open spec fn aggs_nest_model(fields: Seq<Seq<char>>, head_size: int) -> ValModel
    recommends
        fields.len() >= 1,
    decreases fields.len(),
{
    let f = fields[0];
    let terms = ValModel::Obj(seq![("field"@, ValModel::Str(f)), ("size"@, ValModel::Int(head_size))]);
    if fields.len() <= 1 {
        ValModel::Obj(seq![(f, ValModel::Obj(seq![("terms"@, terms)]))])
    } else {
        ValModel::Obj(
            seq![
                (
                    f,
                    ValModel::Obj(
                        seq![
                            ("terms"@, terms),
                            ("aggregations"@, aggs_nest_model(fields.drop_first(), 0)),
                        ],
                    ),
                ),
            ],
        )
    }
}

/// One aggregation level is well-formed: a single field key over a
/// `terms`/`aggregations` pair.
proof fn lemma_aggs_nest_keys(fields: Seq<Seq<char>>, head_size: int)
    requires
        fields.len() >= 1,
    ensures
        keys_unique(aggs_nest_model(fields, head_size)),
    decreases fields.len(),
{
    reveal_strlit("field");
    reveal_strlit("size");
    assert("field"@.len() != "size"@.len());
    let f = fields[0];
    let terms = ValModel::Obj(
        seq![("field"@, ValModel::Str(f)), ("size"@, ValModel::Int(head_size))],
    );
    lemma_obj2_keys("field"@, ValModel::Str(f), "size"@, ValModel::Int(head_size));
    if fields.len() <= 1 {
        lemma_obj1_keys("terms"@, terms);
        lemma_obj1_keys(f, ValModel::Obj(seq![("terms"@, terms)]));
    } else {
        lemma_aggs_nest_keys(fields.drop_first(), 0);
        reveal_strlit("terms");
        reveal_strlit("aggregations");
        assert("terms"@.len() != "aggregations"@.len());
        let inner = aggs_nest_model(fields.drop_first(), 0);
        lemma_obj2_keys("terms"@, terms, "aggregations"@, inner);
        lemma_obj1_keys(
            f,
            ValModel::Obj(seq![("terms"@, terms), ("aggregations"@, inner)]),
        );
    }
}

/// Every mapping of a drill-down aggregation holds pairwise distinct
/// keys: one field per level, over a `terms`/`aggregations` pair.
pub proof fn lemma_aggs_keys_unique(fields: Seq<Seq<char>>)
    ensures
        keys_unique(aggs_model(fields)),
{
    if fields.len() == 0 {
        lemma_keys_unique_entries(Seq::<(Seq<char>, ValModel)>::empty());
    } else {
        lemma_aggs_nest_keys(fields, 200);
    }
}

/// Converts an ordered field list into its nested drill-down aggregation,
/// per [`aggs_model`].
pub fn build_aggs(aggs: Vec<&str>) -> (r: Value)
    ensures
        r@ == aggs_model(aggs.deep_view()),
{
    proof {
        assert(aggs.deep_view().len() == aggs@.len());
    }
    if aggs.len() == 0 {
        let fs: Vec<(String, Value)> = Vec::new();
        proof {
            assert(entries_model(fs@) =~= Seq::<(Seq<char>, ValModel)>::empty());
        }
        Value::Obj(fs)
    } else {
        let r = aggs_nest_value(&aggs, 0, 200);
        proof {
            assert(aggs.deep_view().skip(0) =~= aggs.deep_view());
        }
        r
    }
}

/// The aggregation of the field list from `idx` on, whose first field
/// uses bucket size `head_size`.
fn aggs_nest_value(aggs: &Vec<&str>, idx: usize, head_size: i64) -> (r: Value)
    requires
        idx < aggs@.len(),
    ensures
        r@ == aggs_nest_model(aggs.deep_view().skip(idx as int), head_size as int),
    decreases aggs@.len() - idx,
{
    let ghost tail = aggs.deep_view().skip(idx as int);
    let field = String::from_str(aggs[idx]);
    let terms = obj2("field", Value::Str(field), "size", Value::Int(head_size));
    let key = String::from_str(aggs[idx]);
    if idx == aggs.len() - 1 {
        let r = obj1s(key, obj1s(String::from_str("terms"), terms));
        proof {
            assert(r@ =~~= aggs_nest_model(tail, head_size as int));
        }
        r
    } else {
        let deeper = aggs_nest_value(aggs, idx + 1, 0);
        proof {
            assert(tail.drop_first() =~= aggs.deep_view().skip(idx + 1));
        }
        let r = obj1s(
            key,
            obj2("terms", terms, "aggregations", deeper),
        );
        proof {
            assert(r@ =~~= aggs_nest_model(tail, head_size as int));
        }
        r
    }
}

} // verus!
