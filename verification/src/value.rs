//! The structured-value model: a recursive tagged union of null, booleans,
//! numbers, strings, arrays and insertion-ordered objects, together with the
//! deep-merge operation used by the template copier and the configuration
//! synthesizer.

use vstd::prelude::*;

verus! {

/// Mathematical model of a structured value. Objects are sequences of
/// key/value pairs so that key insertion order is part of the model.
#[verifier::ext_equal]
pub enum ValueView {
    Null,
    Bool(bool),
    Num(int),
    Str(Seq<char>),
    Arr(Seq<ValueView>),
    Obj(Seq<(Seq<char>, ValueView)>),
}

/// A structured value: the tree-shaped data that package manifests and lint
/// configurations are made of. Object keys are unique and keep their
/// insertion order, so serialization is deterministic.
#[derive(Debug)]
pub enum StructuredValue {
    Null,
    Bool(bool),
    Num(i64),
    Str(String),
    Arr(Vec<StructuredValue>),
    Obj(Vec<(String, StructuredValue)>),
}

/// The model of a sequence of array elements.
pub open spec fn arr_view(items: Seq<StructuredValue>) -> Seq<ValueView>
    decreases items,
{
    if items.len() == 0 {
        Seq::empty()
    } else {
        seq![value_view(items[0])] + arr_view(items.skip(1))
    }
}

/// The model of a sequence of object key/value pairs.
pub open spec fn obj_view(pairs: Seq<(String, StructuredValue)>) -> Seq<(Seq<char>, ValueView)>
    decreases pairs,
{
    if pairs.len() == 0 {
        Seq::empty()
    } else {
        seq![(pairs[0].0@, value_view(pairs[0].1))] + obj_view(pairs.skip(1))
    }
}

/// The model of a structured value.
pub open spec fn value_view(v: StructuredValue) -> ValueView
    decreases v,
{
    match v {
        StructuredValue::Null => ValueView::Null,
        StructuredValue::Bool(b) => ValueView::Bool(b),
        StructuredValue::Num(n) => ValueView::Num(n as int),
        StructuredValue::Str(s) => ValueView::Str(s@),
        StructuredValue::Arr(items) => ValueView::Arr(arr_view(items@)),
        StructuredValue::Obj(pairs) => ValueView::Obj(obj_view(pairs@)),
    }
}

impl View for StructuredValue {
    type V = ValueView;

    open spec fn view(&self) -> ValueView {
        value_view(*self)
    }
}

/// `arr_view` maps the sequence elementwise.
pub proof fn lemma_arr_view_index(items: Seq<StructuredValue>)
    ensures
        arr_view(items).len() == items.len(),
        forall|i: int| 0 <= i < items.len() ==> arr_view(items)[i] == value_view(items[i]),
    decreases items,
{
    if items.len() > 0 {
        lemma_arr_view_index(items.skip(1));
        assert forall|i: int| 0 <= i < items.len() implies arr_view(items)[i] == value_view(
            items[i],
        ) by {
            if i > 0 {
                assert(arr_view(items)[i] == arr_view(items.skip(1))[i - 1]);
                assert(items.skip(1)[i - 1] == items[i]);
            }
        }
    }
}

/// `obj_view` maps the pair sequence elementwise.
pub proof fn lemma_obj_view_index(pairs: Seq<(String, StructuredValue)>)
    ensures
        obj_view(pairs).len() == pairs.len(),
        forall|i: int| 0 <= i < pairs.len() ==> obj_view(pairs)[i] == (
            pairs[i].0@,
            value_view(pairs[i].1),
        ),
    decreases pairs,
{
    if pairs.len() > 0 {
        lemma_obj_view_index(pairs.skip(1));
        assert forall|i: int| 0 <= i < pairs.len() implies obj_view(pairs)[i] == (
            pairs[i].0@,
            value_view(pairs[i].1),
        ) by {
            if i > 0 {
                assert(obj_view(pairs)[i] == obj_view(pairs.skip(1))[i - 1]);
                assert(pairs.skip(1)[i - 1] == pairs[i]);
            }
        }
    }
}

impl StructuredValue {
    /// A structurally equal copy of the value.
    #[verifier::loop_isolation(false)]
    pub fn deep_clone(&self) -> (r: StructuredValue)
        ensures
            r@ == self@,
        decreases *self,
    {
        match self {
            StructuredValue::Null => StructuredValue::Null,
            StructuredValue::Bool(b) => StructuredValue::Bool(*b),
            StructuredValue::Num(n) => StructuredValue::Num(*n),
            StructuredValue::Str(s) => StructuredValue::Str(s.clone()),
            StructuredValue::Arr(items) => {
                let mut out: Vec<StructuredValue> = Vec::new();
                let mut i: usize = 0;
                while i < items.len()
                    invariant
                        i <= items@.len(),
                        out@.len() == i,
                        forall|j: int| 0 <= j < i ==> value_view(out@[j]) == value_view(
                            items@[j],
                        ),
                    decreases items@.len() - i,
                {
                    out.push(items[i].deep_clone());
                    i += 1;
                }
                proof {
                    lemma_arr_view_pointwise(out@, items@);
                }
                StructuredValue::Arr(out)
            },
            StructuredValue::Obj(pairs) => {
                let mut out: Vec<(String, StructuredValue)> = Vec::new();
                let mut i: usize = 0;
                while i < pairs.len()
                    invariant
                        i <= pairs@.len(),
                        out@.len() == i,
                        forall|j: int| 0 <= j < i ==> out@[j].0@ == pairs@[j].0@ && value_view(
                            out@[j].1,
                        ) == value_view(pairs@[j].1),
                    decreases pairs@.len() - i,
                {
                    let k = pairs[i].0.clone();
                    let v = pairs[i].1.deep_clone();
                    out.push((k, v));
                    i += 1;
                }
                proof {
                    lemma_obj_view_pointwise(out@, pairs@);
                }
                StructuredValue::Obj(out)
            },
        }
    }
}

/// Whether the pair sequence holds the key `k`.
pub open spec fn has_key(m: Seq<(Seq<char>, ValueView)>, k: Seq<char>) -> bool {
    exists|i: int| 0 <= i < m.len() && m[i].0 == k
}

/// The index of the first pair whose key is `k` (meaningful only when `has_key`).
pub open spec fn key_index(m: Seq<(Seq<char>, ValueView)>, k: Seq<char>) -> int
    decreases m,
{
    if m.len() == 0 {
        0
    } else if m[0].0 == k {
        0
    } else {
        1 + key_index(m.skip(1), k)
    }
}

/// The value bound to the first occurrence of key `k`.
pub open spec fn lookup(m: Seq<(Seq<char>, ValueView)>, k: Seq<char>) -> ValueView {
    m[key_index(m, k)].1
}

/// Object keys are pairwise distinct.
pub open spec fn unique_keys(m: Seq<(Seq<char>, ValueView)>) -> bool {
    forall|i: int, j: int| 0 <= i < j < m.len() ==> m[i].0 != m[j].0
}

/// When the key is present, `key_index` points at its first occurrence.
pub proof fn lemma_key_index(m: Seq<(Seq<char>, ValueView)>, k: Seq<char>)
    requires
        has_key(m, k),
    ensures
        0 <= key_index(m, k) < m.len(),
        m[key_index(m, k)].0 == k,
        forall|j: int| 0 <= j < key_index(m, k) ==> m[j].0 != k,
    decreases m,
{
    if m.len() > 0 && m[0].0 != k {
        assert(has_key(m.skip(1), k)) by {
            let w = choose|i: int| 0 <= i < m.len() && m[i].0 == k;
            assert(m.skip(1)[w - 1] == m[w]);
        }
        lemma_key_index(m.skip(1), k);
        assert forall|j: int| 0 <= j < key_index(m, k) implies m[j].0 != k by {
            if j > 0 {
                assert(m.skip(1)[j - 1] == m[j]);
            }
        }
    }
}

/// A position whose prefix is free of the key is the `key_index`.
pub proof fn lemma_key_index_at(m: Seq<(Seq<char>, ValueView)>, k: Seq<char>, p: int)
    requires
        0 <= p < m.len(),
        m[p].0 == k,
        forall|j: int| 0 <= j < p ==> m[j].0 != k,
    ensures
        has_key(m, k),
        key_index(m, k) == p,
    decreases m,
{
    if p > 0 {
        assert forall|j: int| 0 <= j < p - 1 implies m.skip(1)[j].0 != k by {
            assert(m.skip(1)[j] == m[j + 1]);
        }
        assert(m.skip(1)[p - 1] == m[p]);
        lemma_key_index_at(m.skip(1), k, p - 1);
    }
}

/// Deep merge of two models: both objects merge key by key, both arrays
/// concatenate, and in every other combination the overlay `b` wins.
pub open spec fn merge_view(a: ValueView, b: ValueView) -> ValueView
    decreases b, 0int,
{
    match (a, b) {
        (ValueView::Obj(am), ValueView::Obj(bm)) => ValueView::Obj(merge_pairs(am, bm)),
        (ValueView::Arr(ai), ValueView::Arr(bi)) => ValueView::Arr(ai + bi),
        _ => b,
    }
}

/// Overlays the pairs of `bm` onto `am`, left to right: a key already present
/// keeps its position and its value is deep-merged; a new key is appended.
pub open spec fn merge_pairs(
    am: Seq<(Seq<char>, ValueView)>,
    bm: Seq<(Seq<char>, ValueView)>,
) -> Seq<(Seq<char>, ValueView)>
    decreases bm, 1int,
{
    if bm.len() == 0 {
        am
    } else {
        let acc = merge_pairs(am, bm.drop_last());
        let last = bm[bm.len() - 1];
        if has_key(acc, last.0) {
            let i = key_index(acc, last.0);
            acc.update(i, (last.0, merge_view(acc[i].1, last.1)))
        } else {
            acc.push(last)
        }
    }
}

/// A value's model is an object or an array exactly when the value is.
pub proof fn lemma_view_variants(v: StructuredValue)
    ensures
        (value_view(v) is Obj) <==> (v is Obj),
        (value_view(v) is Arr) <==> (v is Arr),
{
}

/// The index of the first pair of `pairs` whose key equals `key`, if any.
#[verifier::loop_isolation(false)]
pub(crate) fn find_key(pairs: &Vec<(String, StructuredValue)>, key: &String) -> (r: Option<usize>)
    ensures
        match r {
            Some(j) => j < pairs@.len() && has_key(obj_view(pairs@), key@) && key_index(
                obj_view(pairs@),
                key@,
            ) == j as int,
            None => !has_key(obj_view(pairs@), key@),
        },
{
    proof {
        lemma_obj_view_index(pairs@);
    }
    let mut i: usize = 0;
    while i < pairs.len()
        invariant
            i <= pairs@.len(),
            forall|j: int| 0 <= j < i ==> obj_view(pairs@)[j].0 != key@,
        decreases pairs@.len() - i,
    {
        if pairs[i].0 == *key {
            proof {
                lemma_key_index_at(obj_view(pairs@), key@, i as int);
            }
            return Some(i);
        }
        i += 1;
    }
    proof {
        if has_key(obj_view(pairs@), key@) {
            let w = choose|j: int|
                0 <= j < obj_view(pairs@).len() && obj_view(pairs@)[j].0 == key@;
            assert(false);
        }
    }
    None
}

/// Deep merge: `obj2` is the overlay. Objects merge recursively key by key
/// with insertion order kept, arrays concatenate, and any other pairing of
/// variants yields the overlay unchanged.
#[verifier::loop_isolation(false)]
pub fn merge(obj1: &StructuredValue, obj2: &StructuredValue) -> (r: StructuredValue)
    ensures
        r@ == merge_view(obj1@, obj2@),
    decreases *obj2,
{
    match (obj1, obj2) {
        (StructuredValue::Obj(am), StructuredValue::Obj(bm)) => {
            let base = obj1.deep_clone();
            let mut out: Vec<(String, StructuredValue)> = match base {
                StructuredValue::Obj(v) => v,
                _ => {
                    proof {
                        lemma_view_variants(base);
                        assert(false);
                    }
                    Vec::new()
                },
            };
            proof {
                assert(obj_view(out@) == obj_view(am@));
                assert(obj_view(bm@).take(0) =~= Seq::<(Seq<char>, ValueView)>::empty());
            }
            let mut i: usize = 0;
            while i < bm.len()
                invariant
                    i <= bm@.len(),
                    obj_view(out@) == merge_pairs(obj_view(am@), obj_view(bm@).take(i as int)),
                decreases bm@.len() - i,
            {
                let ghost prev = out@;
                match find_key(&out, &bm[i].0) {
                    Some(j) => {
                        let merged = merge(&out[j].1, &bm[i].1);
                        let newk = bm[i].0.clone();
                        out.set(j, (newk, merged));
                        proof {
                            lemma_obj_view_index(prev);
                            lemma_obj_view_index(out@);
                            lemma_obj_view_index(bm@);
                            assert(obj_view(out@) =~= obj_view(prev).update(
                                j as int,
                                (
                                    bm@[i as int].0@,
                                    merge_view(obj_view(prev)[j as int].1, value_view(
                                        bm@[i as int].1,
                                    )),
                                ),
                            ));
                        }
                    },
                    None => {
                        out.push((bm[i].0.clone(), bm[i].1.deep_clone()));
                        proof {
                            lemma_obj_view_index(prev);
                            lemma_obj_view_index(out@);
                            lemma_obj_view_index(bm@);
                            assert(obj_view(out@) =~= obj_view(prev).push(
                                (bm@[i as int].0@, value_view(bm@[i as int].1)),
                            ));
                        }
                    },
                }
                proof {
                    lemma_obj_view_index(bm@);
                    assert(obj_view(bm@).take(i + 1).drop_last() =~= obj_view(bm@).take(
                        i as int,
                    ));
                    assert(obj_view(bm@).take(i + 1)[i as int] == obj_view(bm@)[i as int]);
                }
                i += 1;
            }
            proof {
                lemma_obj_view_index(bm@);
                assert(obj_view(bm@).take(bm@.len() as int) =~= obj_view(bm@));
            }
            StructuredValue::Obj(out)
        },
        (StructuredValue::Arr(ai), StructuredValue::Arr(bi)) => {
            let base = obj1.deep_clone();
            let mut out: Vec<StructuredValue> = match base {
                StructuredValue::Arr(v) => v,
                _ => {
                    proof {
                        lemma_view_variants(base);
                        assert(false);
                    }
                    Vec::new()
                },
            };
            let ghost out0 = out@;
            let mut i: usize = 0;
            while i < bi.len()
                invariant
                    i <= bi@.len(),
                    out@.len() == out0.len() + i,
                    out@.take(out0.len() as int) == out0,
                    forall|j: int| 0 <= j < i ==> value_view(out@[out0.len() + j]) == value_view(
                        bi@[j],
                    ),
                decreases bi@.len() - i,
            {
                out.push(bi[i].deep_clone());
                proof {
                    assert(out@.take(out0.len() as int) =~= out0);
                }
                i += 1;
            }
            proof {
                lemma_arr_view_index(out@);
                lemma_arr_view_index(out0);
                lemma_arr_view_index(ai@);
                lemma_arr_view_index(bi@);
                assert(arr_view(out@) =~= arr_view(ai@) + arr_view(bi@));
            }
            StructuredValue::Arr(out)
        },
        _ => {
            proof {
                lemma_view_variants(*obj1);
                lemma_view_variants(*obj2);
            }
            obj2.deep_clone()
        },
    }
}

/// A copy of the elements, models kept.
#[verifier::loop_isolation(false)]
pub(crate) fn clone_values(items: &Vec<StructuredValue>) -> (r: Vec<StructuredValue>)
    ensures
        r@.len() == items@.len(),
        arr_view(r@) == arr_view(items@),
        forall|j: int| 0 <= j < items@.len() ==> value_view(#[trigger] r@[j]) == value_view(
            items@[j],
        ),
{
    let mut out: Vec<StructuredValue> = Vec::new();
    let mut i: usize = 0;
    while i < items.len()
        invariant
            i <= items@.len(),
            out@.len() == i,
            forall|j: int| 0 <= j < i ==> value_view(#[trigger] out@[j]) == value_view(
                items@[j],
            ),
        decreases items@.len() - i,
    {
        out.push(items[i].deep_clone());
        i += 1;
    }
    proof {
        lemma_arr_view_pointwise(out@, items@);
    }
    out
}

/// Binding `k` to `v` in an insertion-ordered object: an existing key keeps
/// its position, a new key is appended.
pub open spec fn obj_insert(
    m: Seq<(Seq<char>, ValueView)>,
    k: Seq<char>,
    v: ValueView,
) -> Seq<(Seq<char>, ValueView)> {
    if has_key(m, k) {
        m.update(key_index(m, k), (k, v))
    } else {
        m.push((k, v))
    }
}

/// A copy of `pairs` with `key` bound to `val`.
#[verifier::loop_isolation(false)]
pub(crate) fn obj_insert_exec(
    pairs: &Vec<(String, StructuredValue)>,
    key: &String,
    val: StructuredValue,
) -> (r: Vec<(String, StructuredValue)>)
    ensures
        obj_view(r@) == obj_insert(obj_view(pairs@), key@, val@),
{
    let mut out: Vec<(String, StructuredValue)> = Vec::new();
    let mut i: usize = 0;
    while i < pairs.len()
        invariant
            i <= pairs@.len(),
            out@.len() == i,
            forall|j: int| 0 <= j < i ==> out@[j].0@ == pairs@[j].0@ && value_view(out@[j].1)
                == value_view(pairs@[j].1),
        decreases pairs@.len() - i,
    {
        let k = pairs[i].0.clone();
        let v = pairs[i].1.deep_clone();
        out.push((k, v));
        i += 1;
    }
    proof {
        lemma_obj_view_pointwise(out@, pairs@);
        lemma_obj_view_index(pairs@);
    }
    match find_key(pairs, key) {
        Some(j) => {
            let ghost prev = out@;
            out.set(j, (key.clone(), val));
            proof {
                lemma_obj_view_index(prev);
                lemma_obj_view_index(out@);
                assert(obj_view(out@) =~= obj_insert(obj_view(pairs@), key@, val@));
            }
        },
        None => {
            let ghost prev = out@;
            out.push((key.clone(), val));
            proof {
                lemma_obj_view_index(prev);
                lemma_obj_view_index(out@);
                assert(obj_view(out@) =~= obj_insert(obj_view(pairs@), key@, val@));
            }
        },
    }
    out
}

/// Law: merging two arrays is order-preserving concatenation, the base's
/// elements first, with nothing deduplicated.
pub proof fn lemma_merge_arrays(x: Seq<ValueView>, y: Seq<ValueView>)
    ensures
        merge_view(ValueView::Arr(x), ValueView::Arr(y)) == ValueView::Arr(x + y),
        (merge_view(ValueView::Arr(x), ValueView::Arr(y))->Arr_0).len() == x.len() + y.len(),
{
}

/// Law: when the operands are not both objects and not both arrays, the
/// overlay wins unconditionally.
pub proof fn lemma_merge_override(a: ValueView, b: ValueView)
    requires
        !(a is Obj && b is Obj),
        !(a is Arr && b is Arr),
    ensures
        merge_view(a, b) == b,
{
}

/// Updating a pair in place, key kept, changes no key and no first position.
proof fn lemma_key_index_update(
    m: Seq<(Seq<char>, ValueView)>,
    i: int,
    p: (Seq<char>, ValueView),
    k: Seq<char>,
)
    requires
        0 <= i < m.len(),
        p.0 == m[i].0,
    ensures
        has_key(m.update(i, p), k) == has_key(m, k),
        has_key(m, k) ==> key_index(m.update(i, p), k) == key_index(m, k),
{
    let m2 = m.update(i, p);
    assert(forall|j: int| 0 <= j < m.len() ==> m2[j].0 == m[j].0);
    if has_key(m, k) {
        lemma_key_index(m, k);
        lemma_key_index_at(m2, k, key_index(m, k));
    }
    if has_key(m2, k) {
        let w = choose|j: int| 0 <= j < m2.len() && m2[j].0 == k;
        assert(m[w].0 == k);
    }
}

/// How appending a pair affects keys and first positions.
proof fn lemma_key_index_push(
    m: Seq<(Seq<char>, ValueView)>,
    p: (Seq<char>, ValueView),
    k: Seq<char>,
)
    ensures
        has_key(m, k) ==> has_key(m.push(p), k) && key_index(m.push(p), k) == key_index(m, k),
        !has_key(m, k) && p.0 == k ==> has_key(m.push(p), k) && key_index(m.push(p), k)
            == m.len(),
        !has_key(m, k) && p.0 != k ==> !has_key(m.push(p), k),
{
    if has_key(m, k) {
        lemma_key_index(m, k);
        lemma_key_index_at(m.push(p), k, key_index(m, k));
    } else {
        assert(forall|j: int| 0 <= j < m.len() ==> m[j].0 != k);
        if p.0 == k {
            lemma_key_index_at(m.push(p), k, m.len() as int);
        } else {
            if has_key(m.push(p), k) {
                let w = choose|j: int| 0 <= j < m.push(p).len() && m.push(p)[j].0 == k;
                if w < m.len() {
                    assert(m[w].0 == k);
                }
                assert(false);
            }
        }
    }
}

/// How `obj_insert` affects membership and lookup.
pub proof fn lemma_obj_insert_lookup(
    m: Seq<(Seq<char>, ValueView)>,
    k: Seq<char>,
    v: ValueView,
    k2: Seq<char>,
)
    ensures
        has_key(obj_insert(m, k, v), k2) == (has_key(m, k2) || k2 == k),
        lookup(obj_insert(m, k, v), k) == v,
        k2 != k && has_key(m, k2) ==> lookup(obj_insert(m, k, v), k2) == lookup(m, k2),
{
    if has_key(m, k) {
        lemma_key_index(m, k);
        let i = key_index(m, k);
        lemma_key_index_update(m, i, (k, v), k);
        lemma_key_index_update(m, i, (k, v), k2);
        if k2 != k && has_key(m, k2) {
            lemma_key_index(m, k2);
            assert(key_index(m, k2) != i);
        }
    } else {
        lemma_key_index_push(m, (k, v), k);
        lemma_key_index_push(m, (k, v), k2);
        if k2 != k && has_key(m, k2) {
            lemma_key_index(m, k2);
        }
        if k2 != k && !has_key(m, k2) && has_key(obj_insert(m, k, v), k2) {
            let w = choose|j: int|
                0 <= j < obj_insert(m, k, v).len() && obj_insert(m, k, v)[j].0 == k2;
            if w < m.len() {
                assert(m[w].0 == k2);
            }
            assert(false);
        }
    }
}

/// Law: after an object merge, every key of the overlay is present and holds
/// the overlay's value (deep-merged with the base's when the base also has the
/// key), and every key only in the base keeps the base's value; no other keys
/// exist. Requires the overlay's keys to be unique, the objects' invariant.
pub proof fn lemma_merge_pairs_lookup(
    am: Seq<(Seq<char>, ValueView)>,
    bm: Seq<(Seq<char>, ValueView)>,
    k: Seq<char>,
)
    requires
        unique_keys(bm),
    ensures
        has_key(merge_pairs(am, bm), k) <==> (has_key(am, k) || has_key(bm, k)),
        has_key(am, k) && !has_key(bm, k) ==> lookup(merge_pairs(am, bm), k) == lookup(am, k),
        has_key(am, k) && has_key(bm, k) ==> lookup(merge_pairs(am, bm), k) == merge_view(
            lookup(am, k),
            lookup(bm, k),
        ),
        !has_key(am, k) && has_key(bm, k) ==> lookup(merge_pairs(am, bm), k) == lookup(bm, k),
    decreases bm,
{
    if bm.len() == 0 {
        if has_key(bm, k) {
            let w = choose|j: int| 0 <= j < bm.len() && bm[j].0 == k;
            assert(false);
        }
    } else {
        let bm0 = bm.drop_last();
        let last = bm[bm.len() - 1];
        let acc = merge_pairs(am, bm0);
        assert(unique_keys(bm0)) by {
            assert(forall|j: int| 0 <= j < bm0.len() ==> bm0[j] == bm[j]);
        }
        lemma_merge_pairs_lookup(am, bm0, k);
        lemma_merge_pairs_lookup(am, bm0, last.0);
        // The overlay's last key occurs nowhere earlier in the overlay.
        assert(!has_key(bm0, last.0)) by {
            if has_key(bm0, last.0) {
                let w = choose|j: int| 0 <= j < bm0.len() && bm0[j].0 == last.0;
                assert(bm[w].0 == bm[bm.len() - 1].0);
                assert(false);
            }
        }
        // Looking up a key of the whole overlay.
        assert(has_key(bm, last.0) && key_index(bm, last.0) == bm.len() - 1) by {
            assert(forall|j: int| 0 <= j < bm.len() - 1 ==> bm[j].0 != last.0);
            lemma_key_index_at(bm, last.0, bm.len() - 1);
        }
        if k != last.0 && has_key(bm0, k) {
            lemma_key_index(bm0, k);
            assert(bm[key_index(bm0, k)] == bm0[key_index(bm0, k)]);
            lemma_key_index_at(bm, k, key_index(bm0, k));
            assert(lookup(bm, k) == lookup(bm0, k));
        }
        if k != last.0 && !has_key(bm0, k) && has_key(bm, k) {
            let w = choose|j: int| 0 <= j < bm.len() && bm[j].0 == k;
            assert(bm0[w] == bm[w]);
            assert(false);
        }
        if has_key(acc, last.0) {
            let i = key_index(acc, last.0);
            lemma_key_index(acc, last.0);
            let p = (last.0, merge_view(acc[i].1, last.1));
            lemma_key_index_update(acc, i, p, k);
            if k == last.0 {
                assert(lookup(merge_pairs(am, bm), k) == merge_view(acc[i].1, last.1));
                assert(lookup(bm, k) == last.1);
            } else {
                if has_key(acc, k) {
                    lemma_key_index(acc, k);
                    assert(key_index(acc, k) != i);
                    assert(lookup(merge_pairs(am, bm), k) == lookup(acc, k));
                }
            }
        } else {
            lemma_key_index_push(acc, last, k);
            if k == last.0 {
                assert(lookup(merge_pairs(am, bm), k) == last.1);
                assert(lookup(bm, k) == last.1);
            } else {
                if has_key(acc, k) {
                    lemma_key_index(acc, k);
                    assert(lookup(merge_pairs(am, bm), k) == lookup(acc, k));
                }
            }
        }
    }
}

/// Law: merging keeps the objects' invariant. When both operands have unique
/// keys, so does the merged object.
pub proof fn lemma_merge_pairs_unique(
    am: Seq<(Seq<char>, ValueView)>,
    bm: Seq<(Seq<char>, ValueView)>,
)
    requires
        unique_keys(am),
        unique_keys(bm),
    ensures
        unique_keys(merge_pairs(am, bm)),
    decreases bm,
{
    if bm.len() > 0 {
        let bm0 = bm.drop_last();
        assert(unique_keys(bm0)) by {
            assert(forall|j: int| 0 <= j < bm0.len() ==> bm0[j] == bm[j]);
        }
        lemma_merge_pairs_unique(am, bm0);
        let acc = merge_pairs(am, bm0);
        let last = bm[bm.len() - 1];
        if has_key(acc, last.0) {
            let i = key_index(acc, last.0);
            lemma_key_index(acc, last.0);
            let m2 = acc.update(i, (last.0, merge_view(acc[i].1, last.1)));
            assert forall|p: int, q: int| 0 <= p < q < m2.len() implies m2[p].0 != m2[q].0 by {
                assert(m2[p].0 == acc[p].0);
                assert(m2[q].0 == acc[q].0);
            }
        } else {
            assert(forall|j: int| 0 <= j < acc.len() ==> acc[j].0 != last.0);
            let m2 = acc.push(last);
            assert forall|p: int, q: int| 0 <= p < q < m2.len() implies m2[p].0 != m2[q].0 by {
                assert(m2[p].0 == acc[p].0);
                if q < acc.len() {
                    assert(m2[q].0 == acc[q].0);
                } else {
                    assert(m2[q].0 == last.0);
                }
            }
        }
    }
}

/// Law: the override rule for whole objects. After a merge, a key of the
/// overlay is bound to the overlay's value, deep-merged with the base's value
/// where the base also has the key; a key only in the base keeps the base's
/// value; and no other key exists.
pub proof fn lemma_merge_objects(a: ValueView, b: ValueView, k: Seq<char>)
    requires
        a is Obj,
        b is Obj,
        unique_keys(b->Obj_0),
    ensures
        merge_view(a, b) is Obj,
        has_key(merge_view(a, b)->Obj_0, k) <==> (has_key(a->Obj_0, k) || has_key(
            b->Obj_0,
            k,
        )),
        has_key(a->Obj_0, k) && !has_key(b->Obj_0, k) ==> lookup(merge_view(a, b)->Obj_0, k)
            == lookup(a->Obj_0, k),
        has_key(a->Obj_0, k) && has_key(b->Obj_0, k) ==> lookup(merge_view(a, b)->Obj_0, k)
            == merge_view(lookup(a->Obj_0, k), lookup(b->Obj_0, k)),
        !has_key(a->Obj_0, k) && has_key(b->Obj_0, k) ==> lookup(merge_view(a, b)->Obj_0, k)
            == lookup(b->Obj_0, k),
{
    lemma_merge_pairs_lookup(a->Obj_0, b->Obj_0, k);
}

/// Sequences whose elements have equal models have equal `arr_view`s.
pub proof fn lemma_arr_view_pointwise(xs: Seq<StructuredValue>, ys: Seq<StructuredValue>)
    requires
        xs.len() == ys.len(),
        forall|j: int| 0 <= j < xs.len() ==> value_view(xs[j]) == value_view(ys[j]),
    ensures
        arr_view(xs) == arr_view(ys),
    decreases xs,
{
    if xs.len() > 0 {
        lemma_arr_view_pointwise(xs.skip(1), ys.skip(1));
        assert(arr_view(xs) =~= arr_view(ys));
    }
}

/// Pair sequences whose keys and value models agree have equal `obj_view`s.
pub proof fn lemma_obj_view_pointwise(
    xs: Seq<(String, StructuredValue)>,
    ys: Seq<(String, StructuredValue)>,
)
    requires
        xs.len() == ys.len(),
        forall|j: int| 0 <= j < xs.len() ==> xs[j].0@ == ys[j].0@ && value_view(xs[j].1)
            == value_view(ys[j].1),
    ensures
        obj_view(xs) == obj_view(ys),
    decreases xs,
{
    if xs.len() > 0 {
        lemma_obj_view_pointwise(xs.skip(1), ys.skip(1));
        assert(obj_view(xs) =~= obj_view(ys));
    }
}

} // verus!
