//! The compiled query value: a recursively nested tree of mappings,
//! sequences and scalars, together with its mathematical model.

use vstd::prelude::*;
use vstd::string::StringExecFns;

verus! {

/// A node of the compiled query tree. Mappings hold their entries in
/// insertion order with unique keys; sequences are order-significant.
#[derive(Debug, PartialEq)]
pub enum Value {
    /// A string scalar.
    Str(String),
    /// An integer scalar.
    Int(i64),
    /// An order-significant sequence.
    Arr(Vec<Value>),
    /// A mapping, as an ordered list of key/value entries.
    Obj(Vec<(String, Value)>),
}

/// The mathematical model of a [`Value`]: the same tree over `Seq` and `int`.
#[verifier::ext_equal]
pub enum ValModel {
    Str(Seq<char>),
    Int(int),
    Arr(Seq<ValModel>),
    Obj(Seq<(Seq<char>, ValModel)>),
}

impl View for Value {
    type V = ValModel;

    open spec fn view(&self) -> ValModel {
        value_model(*self)
    }
}

/// The model of a value: every `Vec` becomes a `Seq`, every `String` a
/// `Seq<char>`, every `i64` an `int`.
pub open spec fn value_model(v: Value) -> ValModel
    decreases v, 1int,
{
    match v {
        Value::Str(s) => ValModel::Str(s@),
        Value::Int(i) => ValModel::Int(i as int),
        Value::Arr(vs) => ValModel::Arr(elems_model(vs@)),
        Value::Obj(fs) => ValModel::Obj(entries_model(fs@)),
    }
}

/// The models of the elements of a sequence, in order.
pub open spec fn elems_model(vs: Seq<Value>) -> Seq<ValModel>
    decreases vs, 0int,
{
    if vs.len() == 0 {
        Seq::empty()
    } else {
        seq![value_model(vs[0])] + elems_model(vs.drop_first())
    }
}

/// The models of the entries of a mapping, in order.
pub open spec fn entries_model(fs: Seq<(String, Value)>) -> Seq<(Seq<char>, ValModel)>
    decreases fs, 0int,
{
    if fs.len() == 0 {
        Seq::empty()
    } else {
        seq![(fs[0].0@, value_model(fs[0].1))] + entries_model(fs.drop_first())
    }
}

/// Whether the keys of one mapping are pairwise distinct.
pub open spec fn distinct_keys(fs: Seq<(Seq<char>, ValModel)>) -> bool {
    forall|i: int, j: int| 0 <= i < j < fs.len() ==> fs[i].0 != fs[j].0
}

/// Well-formedness of a query value: every mapping in the tree holds
/// pairwise distinct keys, at every depth.
pub open spec fn keys_unique(m: ValModel) -> bool
    decreases m, 1int,
{
    match m {
        ValModel::Str(_) => true,
        ValModel::Int(_) => true,
        ValModel::Arr(items) => keys_unique_elems(items),
        ValModel::Obj(fs) => distinct_keys(fs) && keys_unique_entries(fs),
    }
}

/// Well-formedness of every element of a sequence.
pub open spec fn keys_unique_elems(items: Seq<ValModel>) -> bool
    decreases items, 0int,
{
    items.len() == 0 || (keys_unique(items[0]) && keys_unique_elems(items.drop_first()))
}

/// Well-formedness of every value of a mapping.
pub open spec fn keys_unique_entries(fs: Seq<(Seq<char>, ValModel)>) -> bool
    decreases fs, 0int,
{
    fs.len() == 0 || (keys_unique(fs[0].1) && keys_unique_entries(fs.drop_first()))
}

/// `keys_unique_elems` is the pointwise well-formedness of the elements.
pub proof fn lemma_keys_unique_elems(items: Seq<ValModel>)
    ensures
        keys_unique_elems(items) <==> (forall|i: int|
            0 <= i < items.len() ==> keys_unique(#[trigger] items[i])),
    decreases items.len(),
{
    if items.len() > 0 {
        lemma_keys_unique_elems(items.drop_first());
        if keys_unique(items[0]) && (forall|i: int|
            0 <= i < items.drop_first().len() ==> keys_unique(#[trigger] items.drop_first()[i])) {
            assert forall|i: int| 0 <= i < items.len() implies keys_unique(#[trigger] items[i]) by {
                if i > 0 {
                    assert(items[i] == items.drop_first()[i - 1]);
                }
            }
        }
    }
}

/// `keys_unique_entries` is the pointwise well-formedness of the values.
pub proof fn lemma_keys_unique_entries(fs: Seq<(Seq<char>, ValModel)>)
    ensures
        keys_unique_entries(fs) <==> (forall|i: int|
            0 <= i < fs.len() ==> keys_unique((#[trigger] fs[i]).1)),
    decreases fs.len(),
{
    if fs.len() > 0 {
        lemma_keys_unique_entries(fs.drop_first());
        if keys_unique(fs[0].1) && (forall|i: int|
            0 <= i < fs.drop_first().len() ==> keys_unique((#[trigger] fs.drop_first()[i]).1)) {
            assert forall|i: int| 0 <= i < fs.len() implies keys_unique((#[trigger] fs[i]).1) by {
                if i > 0 {
                    assert(fs[i] == fs.drop_first()[i - 1]);
                }
            }
        }
    }
}

/// A one-entry mapping is well-formed when its value is.
pub proof fn lemma_obj1_keys(k: Seq<char>, v: ValModel)
    requires
        keys_unique(v),
    ensures
        keys_unique(ValModel::Obj(seq![(k, v)])),
{
    let fs = seq![(k, v)];
    lemma_keys_unique_entries(fs);
    assert(fs[0].1 == v);
}

/// A two-entry mapping is well-formed when its keys differ and its
/// values are well-formed.
pub proof fn lemma_obj2_keys(k1: Seq<char>, v1: ValModel, k2: Seq<char>, v2: ValModel)
    requires
        k1 != k2,
        keys_unique(v1),
        keys_unique(v2),
    ensures
        keys_unique(ValModel::Obj(seq![(k1, v1), (k2, v2)])),
{
    let fs = seq![(k1, v1), (k2, v2)];
    lemma_keys_unique_entries(fs);
    assert(fs[0].1 == v1);
    assert(fs[1].1 == v2);
}

/// A one-element sequence is well-formed when its element is.
pub proof fn lemma_arr1_keys(v: ValModel)
    requires
        keys_unique(v),
    ensures
        keys_unique(ValModel::Arr(seq![v])),
{
    let items = seq![v];
    lemma_keys_unique_elems(items);
    assert(items[0] == v);
}

/// A two-element sequence is well-formed when its elements are.
pub proof fn lemma_arr2_keys(v1: ValModel, v2: ValModel)
    requires
        keys_unique(v1),
        keys_unique(v2),
    ensures
        keys_unique(ValModel::Arr(seq![v1, v2])),
{
    let items = seq![v1, v2];
    lemma_keys_unique_elems(items);
    assert(items[0] == v1);
    assert(items[1] == v2);
}

/// `elems_model` is the pointwise model of the elements.
pub proof fn lemma_elems_model(vs: Seq<Value>)
    ensures
        elems_model(vs).len() == vs.len(),
        forall|i: int| 0 <= i < vs.len() ==> elems_model(vs)[i] == value_model(vs[i]),
    decreases vs.len(),
{
    if vs.len() > 0 {
        lemma_elems_model(vs.drop_first());
    }
}

/// `entries_model` is the pointwise model of the entries.
pub proof fn lemma_entries_model(fs: Seq<(String, Value)>)
    ensures
        entries_model(fs).len() == fs.len(),
        forall|i: int| 0 <= i < fs.len() ==> entries_model(fs)[i] == (
            fs[i].0@,
            value_model(fs[i].1),
        ),
    decreases fs.len(),
{
    if fs.len() > 0 {
        lemma_entries_model(fs.drop_first());
    }
}

/// A string scalar copied from a literal.
pub(crate) fn str_val(s: &str) -> (r: Value)
    ensures
        r@ == ValModel::Str(s@),
{
    Value::Str(String::from_str(s))
}

/// A one-entry mapping under an owned key.
pub(crate) fn obj1s(k: String, v: Value) -> (r: Value)
    ensures
        r@ == ValModel::Obj(seq![(k@, v@)]),
{
    let ghost km = k@;
    let ghost vm = v@;
    let mut fs: Vec<(String, Value)> = Vec::new();
    fs.push((k, v));
    proof {
        lemma_entries_model(fs@);
        assert(entries_model(fs@) =~= seq![(km, vm)]);
    }
    Value::Obj(fs)
}

/// A one-entry mapping under a literal key.
pub(crate) fn obj1(k: &str, v: Value) -> (r: Value)
    ensures
        r@ == ValModel::Obj(seq![(k@, v@)]),
{
    obj1s(String::from_str(k), v)
}

/// A two-entry mapping under literal keys, in order.
pub(crate) fn obj2(k1: &str, v1: Value, k2: &str, v2: Value) -> (r: Value)
    ensures
        r@ == ValModel::Obj(seq![(k1@, v1@), (k2@, v2@)]),
{
    let ghost v1m = v1@;
    let ghost v2m = v2@;
    let mut fs: Vec<(String, Value)> = Vec::new();
    fs.push((String::from_str(k1), v1));
    fs.push((String::from_str(k2), v2));
    proof {
        lemma_entries_model(fs@);
        assert(entries_model(fs@) =~= seq![(k1@, v1m), (k2@, v2m)]);
    }
    Value::Obj(fs)
}

/// A one-element sequence.
pub(crate) fn arr1(v: Value) -> (r: Value)
    ensures
        r@ == ValModel::Arr(seq![v@]),
{
    let ghost vm = v@;
    let mut vs: Vec<Value> = Vec::new();
    vs.push(v);
    proof {
        lemma_elems_model(vs@);
        assert(elems_model(vs@) =~= seq![vm]);
    }
    Value::Arr(vs)
}

/// A two-element sequence, in order.
pub(crate) fn arr2(v1: Value, v2: Value) -> (r: Value)
    ensures
        r@ == ValModel::Arr(seq![v1@, v2@]),
{
    let ghost v1m = v1@;
    let ghost v2m = v2@;
    let mut vs: Vec<Value> = Vec::new();
    vs.push(v1);
    vs.push(v2);
    proof {
        lemma_elems_model(vs@);
        assert(elems_model(vs@) =~= seq![v1m, v2m]);
    }
    Value::Arr(vs)
}

} // verus!
