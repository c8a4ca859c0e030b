//! Template-rendering logic: the package-manifest sorter and the per-file
//! policy of the template tree copier. The filesystem walk itself lives with
//! the caller; everything here is pure.

use vstd::prelude::*;
use vstd::utf8::encode_utf8;

use crate::value::{
    has_key, key_index, lookup, obj_view, value_view, ValueView, StructuredValue,
    find_key, lemma_obj_view_index, lemma_key_index, lemma_key_index_at,
};

verus! {

/// Lexicographic order on byte strings: the order the manifest sorter uses,
/// raw byte comparison of the keys' encodings.
pub open spec fn bytes_le(a: Seq<u8>, b: Seq<u8>) -> bool
    decreases a.len(),
{
    if a.len() == 0 {
        true
    } else if b.len() == 0 {
        false
    } else if a[0] == b[0] {
        bytes_le(a.skip(1), b.skip(1))
    } else {
        a[0] < b[0]
    }
}

/// Order on keys: raw comparison of their encoded bytes.
pub open spec fn key_le(a: Seq<char>, b: Seq<char>) -> bool {
    bytes_le(encode_utf8(a), encode_utf8(b))
}

/// `bytes_le` is total: two byte strings always compare one way or the other.
pub proof fn lemma_bytes_le_total(a: Seq<u8>, b: Seq<u8>)
    ensures
        bytes_le(a, b) || bytes_le(b, a),
    decreases a.len(),
{
    if a.len() > 0 && b.len() > 0 && a[0] == b[0] {
        lemma_bytes_le_total(a.skip(1), b.skip(1));
    }
}

/// Whether `a <= b` in the key order.
#[verifier::loop_isolation(false)]
pub fn string_le(a: &String, b: &String) -> (r: bool)
    ensures
        r == key_le(a@, b@),
{
    let ab = a.as_str().as_bytes();
    let bb = b.as_str().as_bytes();
    let mut i: usize = 0;
    proof {
        assert(ab@.skip(0) =~= ab@);
        assert(bb@.skip(0) =~= bb@);
    }
    while i < ab.len() && i < bb.len() && ab[i] == bb[i]
        invariant
            i <= ab@.len(),
            i <= bb@.len(),
            forall|j: int| 0 <= j < i ==> ab@[j] == bb@[j],
            bytes_le(ab@, bb@) == bytes_le(ab@.skip(i as int), bb@.skip(i as int)),
            bytes_le(bb@, ab@) == bytes_le(bb@.skip(i as int), ab@.skip(i as int)),
        decreases ab@.len() - i,
    {
        proof {
            assert(ab@.skip(i as int).skip(1) =~= ab@.skip(i + 1));
            assert(bb@.skip(i as int).skip(1) =~= bb@.skip(i + 1));
        }
        i += 1;
    }
    if i == ab.len() {
        proof {
            assert(ab@.skip(i as int).len() == 0);
        }
        true
    } else if i == bb.len() {
        proof {
            assert(bb@.skip(i as int).len() == 0);
            assert(ab@.skip(i as int).len() > 0);
        }
        false
    } else {
        proof {
            assert(ab@.skip(i as int)[0] == ab@[i as int]);
            assert(bb@.skip(i as int)[0] == bb@[i as int]);
        }
        ab[i] < bb[i]
    }
}

/// Inserts a pair into a key-sorted pair sequence, before the first key that
/// is not smaller.
pub open spec fn insert_sorted(
    p: (Seq<char>, ValueView),
    s: Seq<(Seq<char>, ValueView)>,
) -> Seq<(Seq<char>, ValueView)>
    decreases s,
{
    if s.len() == 0 {
        seq![p]
    } else if key_le(p.0, s[0].0) {
        seq![p] + s
    } else {
        seq![s[0]] + insert_sorted(p, s.skip(1))
    }
}

/// Insertion sort of object pairs by key, ascending.
pub open spec fn sort_pairs(m: Seq<(Seq<char>, ValueView)>) -> Seq<(Seq<char>, ValueView)>
    decreases m,
{
    if m.len() == 0 {
        Seq::empty()
    } else {
        insert_sorted(m[0], sort_pairs(m.skip(1)))
    }
}

/// Where `insert_sorted` puts the new pair, as a split of the sequence.
proof fn lemma_insert_sorted_at(
    p: (Seq<char>, ValueView),
    s: Seq<(Seq<char>, ValueView)>,
    j: int,
)
    requires
        0 <= j <= s.len(),
        forall|l: int| 0 <= l < j ==> !key_le(p.0, s[l].0),
        j < s.len() ==> key_le(p.0, s[j].0),
    ensures
        insert_sorted(p, s) == s.take(j) + seq![p] + s.skip(j),
    decreases j,
{
    if j == 0 {
        if s.len() == 0 {
            assert(insert_sorted(p, s) =~= s.take(0) + seq![p] + s.skip(0));
        } else {
            assert(insert_sorted(p, s) =~= s.take(0) + seq![p] + s.skip(0));
        }
    } else {
        assert(forall|l: int| 0 <= l < j - 1 ==> s.skip(1)[l] == s[l + 1]);
        assert(j - 1 < s.skip(1).len() ==> s.skip(1)[j - 1] == s[j]);
        lemma_insert_sorted_at(p, s.skip(1), j - 1);
        assert(seq![s[0]] + (s.skip(1).take(j - 1) + seq![p] + s.skip(1).skip(j - 1)) =~= s.take(
            j,
        ) + seq![p] + s.skip(j));
    }
}

/// Inserts a pair into a key-sorted vector of pairs.
#[verifier::loop_isolation(false)]
fn insert_pair_sorted(acc: &mut Vec<(String, StructuredValue)>, p: (String, StructuredValue))
    ensures
        obj_view(final(acc)@) == insert_sorted((p.0@, value_view(p.1)), obj_view(old(acc)@)),
{
    proof {
        lemma_obj_view_index(acc@);
    }
    let ghost s = obj_view(acc@);
    let mut j: usize = 0;
    while j < acc.len() && !string_le(&p.0, &acc[j].0)
        invariant
            j <= acc@.len(),
            forall|l: int| 0 <= l < j ==> !key_le(p.0@, s[l].0),
        decreases acc@.len() - j,
    {
        j += 1;
    }
    proof {
        lemma_insert_sorted_at((p.0@, value_view(p.1)), s, j as int);
    }
    acc.insert(j, p);
    proof {
        lemma_obj_view_index(acc@);
        assert(obj_view(acc@) =~= s.take(j as int) + seq![(p.0@, value_view(p.1))] + s.skip(
            j as int,
        ));
    }
}

/// Sorts the pairs of one dependency section by key, ascending.
#[verifier::loop_isolation(false)]
fn sort_section(sec: &Vec<(String, StructuredValue)>) -> (r: Vec<(String, StructuredValue)>)
    ensures
        obj_view(r@) == sort_pairs(obj_view(sec@)),
{
    proof {
        lemma_obj_view_index(sec@);
    }
    let ghost m = obj_view(sec@);
    let mut out: Vec<(String, StructuredValue)> = Vec::new();
    let mut i: usize = sec.len();
    proof {
        assert(m.skip(sec@.len() as int) =~= Seq::<(Seq<char>, ValueView)>::empty());
    }
    while i > 0
        invariant
            i <= sec@.len(),
            obj_view(out@) == sort_pairs(m.skip(i as int)),
        decreases i,
    {
        i -= 1;
        let p = (sec[i].0.clone(), sec[i].1.deep_clone());
        proof {
            assert(m.skip(i as int)[0] == m[i as int]);
            assert(m.skip(i as int).skip(1) =~= m.skip(i + 1));
        }
        insert_pair_sorted(&mut out, p);
    }
    proof {
        assert(m.skip(0) =~= m);
    }
    out
}

/// Whether `k` is one of the reserved dependency-section keys.
pub open spec fn is_dep_key(k: Seq<char>) -> bool {
    ||| k == "dependencies"@
    ||| k == "devDependencies"@
    ||| k == "peerDependencies"@
    ||| k == "optionalDependencies"@
}

/// The non-dependency pairs of a manifest, in their original order.
pub open spec fn non_dep_pairs(m: Seq<(Seq<char>, ValueView)>) -> Seq<(Seq<char>, ValueView)>
    decreases m,
{
    if m.len() == 0 {
        Seq::empty()
    } else {
        let rest = non_dep_pairs(m.drop_last());
        if is_dep_key(m[m.len() - 1].0) {
            rest
        } else {
            rest.push(m[m.len() - 1])
        }
    }
}

/// A section's inner pairs sorted by key; a non-object section is unchanged.
pub open spec fn sorted_section(v: ValueView) -> ValueView {
    match v {
        ValueView::Obj(sec) => ValueView::Obj(sort_pairs(sec)),
        _ => v,
    }
}

/// The single output pair a dependency key contributes, if present.
pub open spec fn section_entry(m: Seq<(Seq<char>, ValueView)>, k: Seq<char>) -> Seq<
    (Seq<char>, ValueView),
> {
    if has_key(m, k) {
        seq![(k, sorted_section(lookup(m, k)))]
    } else {
        Seq::empty()
    }
}

/// The dependency sections of the output, in their fixed order.
pub open spec fn dep_sections(m: Seq<(Seq<char>, ValueView)>) -> Seq<(Seq<char>, ValueView)> {
    section_entry(m, "dependencies"@) + section_entry(m, "devDependencies"@) + section_entry(
        m,
        "peerDependencies"@,
    ) + section_entry(m, "optionalDependencies"@)
}

/// The sorted manifest: non-dependency keys first in their original order,
/// then each dependency section present, keys sorted ascending.
pub open spec fn sort_view(v: ValueView) -> ValueView {
    match v {
        ValueView::Obj(m) => ValueView::Obj(non_dep_pairs(m) + dep_sections(m)),
        _ => v,
    }
}

/// A well-formed manifest: an object whose dependency sections, where
/// present, are objects themselves.
pub open spec fn manifest_ok(v: ValueView) -> bool {
    &&& v is Obj
    &&& forall|k: Seq<char>|
        is_dep_key(k) && #[trigger] has_key(v->Obj_0, k) ==> (lookup(v->Obj_0, k) is Obj)
}

/// `bytes_le` is transitive.
pub proof fn lemma_bytes_le_trans(a: Seq<u8>, b: Seq<u8>, c: Seq<u8>)
    requires
        bytes_le(a, b),
        bytes_le(b, c),
    ensures
        bytes_le(a, c),
    decreases a.len() + b.len() + c.len(),
{
    if a.len() > 0 && b.len() > 0 && c.len() > 0 {
        if a[0] == b[0] && b[0] == c[0] {
            lemma_bytes_le_trans(a.skip(1), b.skip(1), c.skip(1));
        }
    }
}

/// The pairs are sorted by key, ascending.
pub open spec fn sorted_pairs(s: Seq<(Seq<char>, ValueView)>) -> bool {
    forall|i: int, j: int| 0 <= i < j < s.len() ==> key_le(#[trigger] s[i].0, #[trigger] s[j].0)
}

/// Inserting into a sorted sequence keeps it sorted.
proof fn lemma_insert_sorted_keeps_sorted(
    p: (Seq<char>, ValueView),
    s: Seq<(Seq<char>, ValueView)>,
)
    requires
        sorted_pairs(s),
    ensures
        sorted_pairs(insert_sorted(p, s)),
        insert_sorted(p, s).len() == s.len() + 1,
    decreases s,
{
    if s.len() == 0 {
    } else if key_le(p.0, s[0].0) {
        let out = seq![p] + s;
        assert forall|i: int, j: int| 0 <= i < j < out.len() implies key_le(
            out[i].0,
            out[j].0,
        ) by {
            if i == 0 {
                lemma_bytes_le_total(encode_utf8(s[0].0), encode_utf8(s[0].0));
                lemma_bytes_le_trans(
                    encode_utf8(p.0),
                    encode_utf8(s[0].0),
                    encode_utf8(out[j].0),
                );
            }
        }
    } else {
        assert(forall|l: int| 0 <= l < s.skip(1).len() ==> s.skip(1)[l] == s[l + 1]);
        lemma_insert_sorted_keeps_sorted(p, s.skip(1));
        let rest = insert_sorted(p, s.skip(1));
        let out = seq![s[0]] + rest;
        lemma_bytes_le_total(encode_utf8(p.0), encode_utf8(s[0].0));
        assert forall|i: int, j: int| 0 <= i < j < out.len() implies key_le(
            out[i].0,
            out[j].0,
        ) by {
            if i == 0 {
                // every element of `rest` is `p` or an element of `s`
                lemma_insert_sorted_members(p, s.skip(1), j - 1);
            }
        }
    }
}

/// Each element of `insert_sorted(p, s)` is `p` or an element of `s`.
proof fn lemma_insert_sorted_members(
    p: (Seq<char>, ValueView),
    s: Seq<(Seq<char>, ValueView)>,
    j: int,
)
    requires
        0 <= j < insert_sorted(p, s).len(),
    ensures
        insert_sorted(p, s)[j] == p || exists|l: int|
            0 <= l < s.len() && insert_sorted(p, s)[j] == s[l],
    decreases s,
{
    if s.len() == 0 {
    } else if key_le(p.0, s[0].0) {
        if j > 0 {
            assert((seq![p] + s)[j] == s[j - 1]);
        }
    } else {
        if j > 0 {
            lemma_insert_sorted_members(p, s.skip(1), j - 1);
            if insert_sorted(p, s.skip(1))[j - 1] != p {
                let l = choose|l: int|
                    0 <= l < s.skip(1).len() && insert_sorted(p, s.skip(1))[j - 1] == s.skip(
                        1,
                    )[l];
                assert(s.skip(1)[l] == s[l + 1]);
            }
        }
    }
}

/// Law: the sorter's output sections are sorted by key, ascending.
pub proof fn lemma_sort_pairs_sorted(m: Seq<(Seq<char>, ValueView)>)
    ensures
        sorted_pairs(sort_pairs(m)),
        sort_pairs(m).len() == m.len(),
    decreases m,
{
    if m.len() > 0 {
        lemma_sort_pairs_sorted(m.skip(1));
        lemma_insert_sorted_keeps_sorted(m[0], sort_pairs(m.skip(1)));
    }
}

/// Law: sorting a sequence that is already sorted changes nothing.
pub proof fn lemma_sort_sorted_id(s: Seq<(Seq<char>, ValueView)>)
    requires
        sorted_pairs(s),
    ensures
        sort_pairs(s) == s,
    decreases s,
{
    if s.len() > 0 {
        assert(forall|l: int| 0 <= l < s.skip(1).len() ==> s.skip(1)[l] == s[l + 1]);
        lemma_sort_sorted_id(s.skip(1));
        if s.len() == 1 {
            assert(sort_pairs(s) =~= s);
        } else {
            assert(key_le(s[0].0, s.skip(1)[0].0));
            assert(sort_pairs(s) =~= s);
        }
    }
}

/// Law: the sorter is idempotent on each section.
pub proof fn lemma_sort_pairs_idempotent(m: Seq<(Seq<char>, ValueView)>)
    ensures
        sort_pairs(sort_pairs(m)) == sort_pairs(m),
{
    lemma_sort_pairs_sorted(m);
    lemma_sort_sorted_id(sort_pairs(m));
}

/// `non_dep_pairs` distributes over concatenation.
proof fn lemma_non_dep_concat(a: Seq<(Seq<char>, ValueView)>, b: Seq<(Seq<char>, ValueView)>)
    ensures
        non_dep_pairs(a + b) == non_dep_pairs(a) + non_dep_pairs(b),
    decreases b,
{
    if b.len() == 0 {
        assert(a + b =~= a);
        assert(non_dep_pairs(a) + non_dep_pairs(b) =~= non_dep_pairs(a));
    } else {
        assert((a + b).drop_last() =~= a + b.drop_last());
        lemma_non_dep_concat(a, b.drop_last());
        assert((a + b)[(a + b).len() - 1] == b[b.len() - 1]);
        if !is_dep_key(b[b.len() - 1].0) {
            assert(non_dep_pairs(a) + non_dep_pairs(b.drop_last()).push(b[b.len() - 1])
                =~= non_dep_pairs(a) + non_dep_pairs(b.drop_last()) + seq![b[b.len() - 1]]);
            assert(non_dep_pairs(a + b) =~= non_dep_pairs(a) + non_dep_pairs(b));
        }
    }
}

/// Every key kept by `non_dep_pairs` is a non-dependency key.
proof fn lemma_non_dep_keys(m: Seq<(Seq<char>, ValueView)>)
    ensures
        forall|j: int|
            0 <= j < non_dep_pairs(m).len() ==> !is_dep_key(#[trigger] non_dep_pairs(m)[j].0),
    decreases m,
{
    if m.len() > 0 {
        lemma_non_dep_keys(m.drop_last());
        let rest = non_dep_pairs(m.drop_last());
        assert forall|j: int| 0 <= j < non_dep_pairs(m).len() implies !is_dep_key(
            non_dep_pairs(m)[j].0,
        ) by {
            if !is_dep_key(m[m.len() - 1].0) {
                assert(non_dep_pairs(m) == rest.push(m[m.len() - 1]));
                if j < rest.len() {
                    assert(non_dep_pairs(m)[j] == rest[j]);
                }
            }
        }
    }
}

/// A sequence free of dependency keys passes through `non_dep_pairs`.
proof fn lemma_non_dep_all_kept(s: Seq<(Seq<char>, ValueView)>)
    requires
        forall|j: int| 0 <= j < s.len() ==> !is_dep_key(#[trigger] s[j].0),
    ensures
        non_dep_pairs(s) == s,
    decreases s,
{
    if s.len() > 0 {
        assert(forall|j: int| 0 <= j < s.drop_last().len() ==> s.drop_last()[j] == s[j]);
        lemma_non_dep_all_kept(s.drop_last());
        assert(non_dep_pairs(s) =~= s);
    }
}

/// A sequence of dependency keys only is dropped whole by `non_dep_pairs`.
proof fn lemma_non_dep_none(s: Seq<(Seq<char>, ValueView)>)
    requires
        forall|j: int| 0 <= j < s.len() ==> is_dep_key(#[trigger] s[j].0),
    ensures
        non_dep_pairs(s) == Seq::<(Seq<char>, ValueView)>::empty(),
    decreases s,
{
    if s.len() > 0 {
        assert(forall|j: int| 0 <= j < s.drop_last().len() ==> s.drop_last()[j] == s[j]);
        lemma_non_dep_none(s.drop_last());
    }
}

/// Key membership and lookup across a concatenation.
proof fn lemma_lookup_concat(
    a: Seq<(Seq<char>, ValueView)>,
    b: Seq<(Seq<char>, ValueView)>,
    k: Seq<char>,
)
    ensures
        has_key(a + b, k) == (has_key(a, k) || has_key(b, k)),
        has_key(a, k) ==> lookup(a + b, k) == lookup(a, k),
        !has_key(a, k) && has_key(b, k) ==> lookup(a + b, k) == lookup(b, k),
{
    if has_key(a, k) {
        lemma_key_index(a, k);
        lemma_key_index_at(a + b, k, key_index(a, k));
    } else {
        assert(forall|j: int| 0 <= j < a.len() ==> a[j].0 != k);
        if has_key(b, k) {
            lemma_key_index(b, k);
            lemma_key_index_at(a + b, k, a.len() + key_index(b, k));
        } else {
            assert(forall|j: int| 0 <= j < b.len() ==> b[j].0 != k);
            if has_key(a + b, k) {
                let w = choose|j: int| 0 <= j < (a + b).len() && (a + b)[j].0 == k;
                assert(false);
            }
        }
    }
}

/// The four reserved keys are pairwise distinct.
proof fn lemma_dep_keys_distinct()
    ensures
        "dependencies"@ != "devDependencies"@,
        "dependencies"@ != "peerDependencies"@,
        "dependencies"@ != "optionalDependencies"@,
        "devDependencies"@ != "peerDependencies"@,
        "devDependencies"@ != "optionalDependencies"@,
        "peerDependencies"@ != "optionalDependencies"@,
{
    reveal_strlit("dependencies");
    reveal_strlit("devDependencies");
    reveal_strlit("peerDependencies");
    reveal_strlit("optionalDependencies");
    assert("dependencies"@.len() == 12);
    assert("devDependencies"@.len() == 15);
    assert("peerDependencies"@.len() == 16);
    assert("optionalDependencies"@.len() == 20);
}

/// Every key of `dep_sections` is a dependency key.
proof fn lemma_dep_sections_keys(m: Seq<(Seq<char>, ValueView)>)
    ensures
        forall|j: int|
            0 <= j < dep_sections(m).len() ==> is_dep_key(#[trigger] dep_sections(m)[j].0),
{
}

/// What a dependency key maps to after sorting.
proof fn lemma_dep_sections_lookup(m: Seq<(Seq<char>, ValueView)>, k: Seq<char>)
    requires
        is_dep_key(k),
    ensures
        has_key(dep_sections(m), k) == has_key(m, k),
        has_key(m, k) ==> lookup(dep_sections(m), k) == sorted_section(lookup(m, k)),
{
    lemma_dep_keys_distinct();
    let e1 = section_entry(m, "dependencies"@);
    let e2 = section_entry(m, "devDependencies"@);
    let e3 = section_entry(m, "peerDependencies"@);
    let e4 = section_entry(m, "optionalDependencies"@);
    lemma_lookup_concat(e1 + e2 + e3, e4, k);
    lemma_lookup_concat(e1 + e2, e3, k);
    lemma_lookup_concat(e1, e2, k);
    if has_key(e1, k) {
        lemma_key_index(e1, k);
    }
    if has_key(e2, k) {
        lemma_key_index(e2, k);
    }
    if has_key(e3, k) {
        lemma_key_index(e3, k);
    }
    if has_key(e4, k) {
        lemma_key_index(e4, k);
    }
}

/// Law: the sorted manifest is itself a well-formed manifest.
pub proof fn lemma_sort_view_ok(v: ValueView)
    requires
        manifest_ok(v),
    ensures
        manifest_ok(sort_view(v)),
{
    let m = v->Obj_0;
    let m2 = sort_view(v)->Obj_0;
    lemma_non_dep_keys(m);
    assert forall|k: Seq<char>| is_dep_key(k) && #[trigger] has_key(m2, k) implies (lookup(
        m2,
        k,
    ) is Obj) by {
        lemma_lookup_concat(non_dep_pairs(m), dep_sections(m), k);
        if has_key(non_dep_pairs(m), k) {
            lemma_key_index(non_dep_pairs(m), k);
            assert(false);
        }
        lemma_dep_sections_lookup(m, k);
    }
}

/// Law: sorting a manifest twice gives the same result as sorting it once.
pub proof fn lemma_sort_view_idempotent(v: ValueView)
    requires
        manifest_ok(v),
    ensures
        sort_view(sort_view(v)) == sort_view(v),
{
    let m = v->Obj_0;
    let m2 = sort_view(v)->Obj_0;
    // the non-dependency part is unchanged by a second pass
    lemma_non_dep_concat(non_dep_pairs(m), dep_sections(m));
    lemma_non_dep_keys(m);
    lemma_non_dep_all_kept(non_dep_pairs(m));
    lemma_dep_sections_keys(m);
    lemma_non_dep_none(dep_sections(m));
    assert(non_dep_pairs(m2) =~= non_dep_pairs(m));
    // each dependency section is unchanged by a second pass
    assert forall|k: Seq<char>| is_dep_key(k) implies #[trigger] section_entry(m2, k)
        == section_entry(m, k) by {
        lemma_lookup_concat(non_dep_pairs(m), dep_sections(m), k);
        if has_key(non_dep_pairs(m), k) {
            lemma_key_index(non_dep_pairs(m), k);
            assert(false);
        }
        lemma_dep_sections_lookup(m, k);
        if has_key(m, k) {
            let sec = lookup(m, k);
            assert(lookup(m2, k) == sorted_section(sec));
            if sec is Obj {
                lemma_sort_pairs_idempotent(sec->Obj_0);
            }
        }
    }
    assert(dep_sections(m2) == dep_sections(m));
    assert(sort_view(sort_view(v)) == sort_view(v));
}

/// Whether `k` is one of the reserved dependency-section keys.
fn is_dep_key_exec(k: &String) -> (r: bool)
    ensures
        r == is_dep_key(k@),
{
    let a = String::from_str("dependencies");
    let b = String::from_str("devDependencies");
    let c = String::from_str("peerDependencies");
    let d = String::from_str("optionalDependencies");
    *k == a || *k == b || *k == c || *k == d
}

/// Appends the sorted section for `name` to `out`, if the manifest has it.
#[verifier::loop_isolation(false)]
fn append_section(
    out: &mut Vec<(String, StructuredValue)>,
    pairs: &Vec<(String, StructuredValue)>,
    name: &str,
)
    requires
        has_key(obj_view(pairs@), name@) ==> (lookup(obj_view(pairs@), name@) is Obj),
    ensures
        obj_view(final(out)@) == obj_view(old(out)@) + section_entry(obj_view(pairs@), name@),
{
    let key = String::from_str(name);
    proof {
        lemma_obj_view_index(pairs@);
    }
    match find_key(pairs, &key) {
        Some(j) => {
            proof {
                lemma_key_index(obj_view(pairs@), name@);
            }
            let sorted = match &pairs[j].1 {
                StructuredValue::Obj(sec) => sort_section(sec),
                _ => {
                    proof {
                        crate::value::lemma_view_variants(pairs@[j as int].1);
                        assert(false);
                    }
                    Vec::new()
                },
            };
            let ghost prev = out@;
            out.push((key, StructuredValue::Obj(sorted)));
            proof {
                lemma_obj_view_index(prev);
                lemma_obj_view_index(out@);
                assert(obj_view(out@) =~= obj_view(prev) + section_entry(
                    obj_view(pairs@),
                    name@,
                ));
            }
        },
        None => {
            proof {
                assert(obj_view(out@) =~= obj_view(out@) + section_entry(
                    obj_view(pairs@),
                    name@,
                ));
            }
        },
    }
}

/// Normalizes a merged package manifest for reproducible output: dependency
/// sections are rebuilt with their keys sorted ascending and placed after all
/// other keys, which keep their original relative order.
#[verifier::loop_isolation(false)]
pub fn sort_pkg(pkg: &StructuredValue) -> (r: StructuredValue)
    requires
        manifest_ok(pkg@),
    ensures
        r@ == sort_view(pkg@),
{
    match pkg {
        StructuredValue::Obj(pairs) => {
            proof {
                lemma_obj_view_index(pairs@);
            }
            let ghost m = obj_view(pairs@);
            let mut out: Vec<(String, StructuredValue)> = Vec::new();
            proof {
                assert(m.take(0) =~= Seq::<(Seq<char>, ValueView)>::empty());
            }
            let mut i: usize = 0;
            while i < pairs.len()
                invariant
                    i <= pairs@.len(),
                    obj_view(out@) == non_dep_pairs(m.take(i as int)),
                decreases pairs@.len() - i,
            {
                let ghost prev = out@;
                if !is_dep_key_exec(&pairs[i].0) {
                    out.push((pairs[i].0.clone(), pairs[i].1.deep_clone()));
                    proof {
                        lemma_obj_view_index(prev);
                        lemma_obj_view_index(out@);
                        assert(obj_view(out@) =~= obj_view(prev).push(m[i as int]));
                    }
                }
                proof {
                    assert(m.take(i + 1).drop_last() =~= m.take(i as int));
                    assert(m.take(i + 1)[i as int] == m[i as int]);
                }
                i += 1;
            }
            proof {
                assert(m.take(pairs@.len() as int) =~= m);
            }
            let ghost base = obj_view(out@);
            append_section(&mut out, pairs, "dependencies");
            append_section(&mut out, pairs, "devDependencies");
            append_section(&mut out, pairs, "peerDependencies");
            append_section(&mut out, pairs, "optionalDependencies");
            proof {
                assert(obj_view(out@) =~= non_dep_pairs(m) + dep_sections(m));
            }
            StructuredValue::Obj(out)
        },
        _ => {
            proof {
                crate::value::lemma_view_variants(*pkg);
                assert(false);
            }
            StructuredValue::Null
        },
    }
}

/// Every underscore of the name replaced by a dot.
pub open spec fn dot_substituted(s: Seq<char>) -> Seq<char> {
    Seq::new(s.len(), |i: int| if s[i] == '_' { '.' } else { s[i] })
}

/// The destination name of a template file: a name that begins with the
/// underscore sentinel has every underscore turned into a dot (templates spell
/// dotfiles that way); any other name is kept as it is.
pub open spec fn dest_file_name(s: Seq<char>) -> Seq<char> {
    if s.len() > 0 && s[0] == '_' {
        dot_substituted(s)
    } else {
        s
    }
}

/// Rewrites a template file name for the destination tree.
#[verifier::loop_isolation(false)]
pub fn transform_file_name(name: &String) -> (r: String)
    ensures
        r@ == dest_file_name(name@),
{
    let cs = crate::text::str_chars(name.as_str());
    if cs.len() == 0 || cs[0] != '_' {
        return name.clone();
    }
    let mut out = String::new();
    let mut i: usize = 0;
    while i < cs.len()
        invariant
            i <= cs@.len(),
            out@ == dot_substituted(name@).take(i as int),
        decreases cs@.len() - i,
    {
        if cs[i] == '_' {
            out.push('.');
        } else {
            out.push(cs[i]);
        }
        proof {
            assert(out@ =~= dot_substituted(name@).take(i + 1));
        }
        i += 1;
    }
    proof {
        assert(dot_substituted(name@).take(cs@.len() as int) =~= dot_substituted(name@));
    }
    out
}

/// Whether a directory of the template tree is skipped entirely: stray
/// dependency directories are never copied.
pub fn should_skip_dir(name: &String) -> (r: bool)
    ensures
        r == (name@ == "node_modules"@),
{
    let nm = String::from_str("node_modules");
    *name == nm
}

/// What the copier does with one template file.
#[derive(Debug)]
pub enum FileAction {
    /// The file is a package manifest: deep-merge it into the destination
    /// manifest, which must already exist, and sort the result.
    MergeManifest,
    /// The file is an ignore file and the destination already has one:
    /// append the template's text after the destination's, with a newline
    /// between, at the renamed destination.
    AppendIgnore(String),
    /// Write the file at the (possibly renamed) destination, overwriting.
    Write(String),
}

impl FileAction {
    /// The model of the action.
    pub open spec fn view_of(self) -> FileActionView {
        match self {
            FileAction::MergeManifest => FileActionView::MergeManifest,
            FileAction::AppendIgnore(d) => FileActionView::AppendIgnore(d@),
            FileAction::Write(d) => FileActionView::Write(d@),
        }
    }
}

/// Model of a copier action.
pub enum FileActionView {
    MergeManifest,
    AppendIgnore(Seq<char>),
    Write(Seq<char>),
}

/// The action the copier takes for a file named `name`, given whether the
/// destination already has a file at the transformed path.
pub open spec fn file_policy(name: Seq<char>, dest_has_file: bool) -> FileActionView {
    if name == "package.json"@ {
        FileActionView::MergeManifest
    } else if name == "_gitignore"@ && dest_has_file {
        FileActionView::AppendIgnore(dest_file_name(name))
    } else {
        FileActionView::Write(dest_file_name(name))
    }
}

/// Decides the copier's policy for one file of a template fragment.
pub fn plan_file(name: &String, dest_has_file: bool) -> (r: FileAction)
    ensures
        r.view_of() == file_policy(name@, dest_has_file),
{
    let pkg = String::from_str("package.json");
    if *name == pkg {
        return FileAction::MergeManifest;
    }
    let dest = transform_file_name(name);
    let ignore = String::from_str("_gitignore");
    if *name == ignore && dest_has_file {
        FileAction::AppendIgnore(dest)
    } else {
        FileAction::Write(dest)
    }
}

/// The additive merge of ignore files: the destination's text, a newline,
/// then the template's text.
pub fn merge_ignore(old_text: &String, new_text: &String) -> (r: String)
    ensures
        r@ == old_text@ + seq!['\n'] + new_text@,
{
    let mut out = old_text.clone();
    out.append("\n");
    out.append(new_text.as_str());
    proof {
        reveal_strlit("\n");
        assert("\n"@ =~= seq!['\n']);
    }
    out
}

/// The merged and normalized destination manifest: the template's manifest
/// overlaid onto the destination's, dependency sections sorted.
pub fn merge_manifests(dest: &StructuredValue, src: &StructuredValue) -> (r: StructuredValue)
    requires
        manifest_ok(crate::value::merge_view(dest@, src@)),
    ensures
        r@ == sort_view(crate::value::merge_view(dest@, src@)),
{
    let merged = crate::value::merge(dest, src);
    sort_pkg(&merged)
}

} // verus!
