//! Plugin defaults: the `defaults` section of a hive configuration gives, per plugin id
//! (`hive.runner.docker`, `hive.env.dotenv`, ...), settings that every use of the plugin
//! inherits. A use's own settings are deep-merged over the defaults: objects merge key by
//! key, and anything else in the use's settings wins.

use vstd::prelude::*;
use crate::assoc::{assoc_find, assoc_keys, assoc_view, lemma_assoc_has_key, lemma_assoc_push, lemma_assoc_replace};
use crate::text::chars_of;

verus! {

/// A JSON value. A number is kept as its JSON text.
#[derive(Debug, PartialEq)]
pub enum Json {
    Null,
    Bool(bool),
    Number(String),
    Str(String),
    Array(Vec<Json>),
    Object(Vec<(String, Json)>),
}

/// The mathematical form of a JSON value.
pub enum JsonView {
    Null,
    Bool(bool),
    Number(Seq<char>),
    Str(Seq<char>),
    Array(Seq<JsonView>),
    Object(Seq<(Seq<char>, JsonView)>),
}

/// The mathematical form of a JSON value.
pub open spec fn json_view(j: Json) -> JsonView
    decreases j, 1nat,
{
    match j {
        Json::Null => JsonView::Null,
        Json::Bool(b) => JsonView::Bool(b),
        Json::Number(n) => JsonView::Number(n@),
        Json::Str(s) => JsonView::Str(s@),
        Json::Array(v) => JsonView::Array(items_view(v@)),
        Json::Object(v) => JsonView::Object(entries_view(v@)),
    }
}

/// The mathematical forms of the items of an array.
pub open spec fn items_view(s: Seq<Json>) -> Seq<JsonView>
    decreases s, 0nat,
{
    if s.len() == 0 {
        Seq::empty()
    } else {
        items_view(s.drop_last()).push(json_view(s.last()))
    }
}

/// The mathematical forms of the entries of an object.
pub open spec fn entries_view(s: Seq<(String, Json)>) -> Seq<(Seq<char>, JsonView)>
    decreases s, 0nat,
{
    if s.len() == 0 {
        Seq::empty()
    } else {
        entries_view(s.drop_last()).push((s.last().0@, json_view(s.last().1)))
    }
}

/// The position of the last entry with key `k`, if any.
pub open spec fn key_index(s: Seq<(Seq<char>, JsonView)>, k: Seq<char>) -> Option<int>
    decreases s.len(),
{
    if s.len() == 0 {
        None
    } else if s.last().0 == k {
        Some(s.len() - 1)
    } else {
        key_index(s.drop_last(), k)
    }
}

/// `b` merged over `a`: two objects merge key by key (a key of both gets its values
/// merged, a key of `b` alone is added after the keys of `a`); otherwise `b`.
pub open spec fn merged(a: JsonView, b: JsonView) -> JsonView
    decreases b, 1nat,
{
    match (a, b) {
        (JsonView::Object(ao), JsonView::Object(bo)) => JsonView::Object(merged_entries(ao, bo)),
        _ => b,
    }
}

/// The entries of `bo` merged, in order, into the entries `acc`.
pub open spec fn merged_entries(acc: Seq<(Seq<char>, JsonView)>, bo: Seq<(Seq<char>, JsonView)>) -> Seq<(Seq<char>, JsonView)>
    decreases bo, 0nat,
{
    if bo.len() == 0 {
        acc
    } else {
        let before = merged_entries(acc, bo.drop_last());
        let (k, v) = bo.last();
        match key_index(before, k) {
            Some(i) => before.update(i, (k, merged(before[i].1, v))),
            None => before.push((k, v)),
        }
    }
}

proof fn lemma_key_index(s: Seq<(Seq<char>, JsonView)>, k: Seq<char>)
    ensures
        match key_index(s, k) {
            Some(i) => 0 <= i < s.len() && s[i].0 == k && forall|j: int| i < j < s.len() ==> s[j].0 != k,
            None => forall|j: int| 0 <= j < s.len() ==> s[j].0 != k,
        },
    decreases s.len(),
{
    if s.len() > 0 {
        lemma_key_index(s.drop_last(), k);
        assert forall|j: int| 0 <= j < s.len() - 1 implies s.drop_last()[j] == s[j] by {}
    }
}

proof fn lemma_key_index_is(s: Seq<(Seq<char>, JsonView)>, k: Seq<char>, i: int)
    requires
        0 <= i < s.len(),
        s[i].0 == k,
        forall|j: int| i < j < s.len() ==> s[j].0 != k,
    ensures
        key_index(s, k) == Some(i),
    decreases s.len(),
{
    if i < s.len() - 1 {
        assert(s.last().0 != k);
        assert forall|j: int| i < j < s.len() - 1 implies s.drop_last()[j].0 != k by {
            assert(s.drop_last()[j] == s[j]);
        }
        lemma_key_index_is(s.drop_last(), k, i);
    }
}

/// Where the merge of `bo` into `acc` leaves the key `k`: a key `bo` lacks stays where
/// and as it was in `acc`; a key `bo` gives a value that is no object ends with that
/// value.
proof fn lemma_merged_entries_at(acc: Seq<(Seq<char>, JsonView)>, bo: Seq<(Seq<char>, JsonView)>, k: Seq<char>)
    ensures
        key_index(bo, k) is None ==> key_index(merged_entries(acc, bo), k) == key_index(acc, k) && (
        key_index(acc, k) matches Some(i) ==> merged_entries(acc, bo)[i] == acc[i]),
        key_index(bo, k) matches Some(i) ==> (!(bo[i].1 is Object) ==> (key_index(merged_entries(acc, bo), k) matches Some(j)
            && merged_entries(acc, bo)[j].1 == bo[i].1)),
    decreases bo.len(),
{
    if bo.len() > 0 {
        let d = bo.drop_last();
        lemma_merged_entries_at(acc, d, k);
        let before = merged_entries(acc, d);
        let k2 = bo.last().0;
        let v = bo.last().1;
        let r = merged_entries(acc, bo);
        lemma_key_index(before, k2);
        lemma_key_index(before, k);
        if k2 == k {
            if !(v is Object) {
                match key_index(before, k) {
                    Some(i) => {
                        assert(merged(before[i].1, v) == v);
                        assert(r == before.update(i, (k, v)));
                        lemma_key_index_is(r, k, i);
                    },
                    None => {
                        assert(r == before.push((k, v)));
                        lemma_key_index_is(r, k, r.len() - 1);
                    },
                }
            }
        } else {
            assert(key_index(bo, k) == key_index(d, k));
            lemma_key_index(d, k);
            if key_index(d, k) is Some {
                let i = key_index(d, k).unwrap();
                assert(d[i] == bo[i]);
            }
            match key_index(before, k2) {
                Some(i2) => {
                    assert(r == before.update(i2, (k2, merged(before[i2].1, v))));
                    match key_index(before, k) {
                        Some(i) => {
                            assert(i != i2);
                            assert(r[i] == before[i]);
                            lemma_key_index_is(r, k, i);
                        },
                        None => {
                            lemma_key_index(r, k);
                            if key_index(r, k) is Some {
                                let j = key_index(r, k).unwrap();
                                if j == i2 {
                                } else {
                                    assert(r[j] == before[j]);
                                }
                            }
                        },
                    }
                },
                None => {
                    assert(r == before.push((k2, v)));
                    assert(r.drop_last() =~= before);
                    match key_index(before, k) {
                        Some(i) => {
                            assert(r[i] == before[i]);
                            lemma_key_index_is(r, k, i);
                        },
                        None => {},
                    }
                },
            }
        }
    }
}

/// A setting of a plugin's use that is no object wins over the plugin's default: after
/// the merge, the key has the use's value.
pub proof fn lemma_use_setting_wins(defaults: JsonView, settings: JsonView, k: Seq<char>)
    requires
        settings is Object,
        json_member(settings, k) matches Some(v) && !(v is Object),
    ensures
        json_member(merged(defaults, settings), k) == json_member(settings, k),
{
    match (defaults, settings) {
        (JsonView::Object(ao), JsonView::Object(bo)) => {
            lemma_merged_entries_at(ao, bo, k);
        },
        _ => {},
    }
}

/// A default that the use does not set is kept by the merge.
pub proof fn lemma_default_kept(defaults: JsonView, settings: JsonView, k: Seq<char>)
    requires
        defaults is Object,
        settings is Object,
        json_member(settings, k) is None,
    ensures
        json_member(merged(defaults, settings), k) == json_member(defaults, k),
{
    match (defaults, settings) {
        (JsonView::Object(ao), JsonView::Object(bo)) => {
            lemma_merged_entries_at(ao, bo, k);
        },
        _ => {},
    }
}

/// No two entries have the same key.
pub open spec fn keys_distinct(es: Seq<(Seq<char>, JsonView)>) -> bool {
    forall|i: int, j: int| 0 <= i < j < es.len() ==> es[i].0 != es[j].0
}

/// No object within `v` (itself, or a value of one of its entries, at any depth) has two
/// entries with the same key, as in JSON read from text.
pub open spec fn unique_keys(v: JsonView) -> bool
    decreases v, 1nat,
{
    match v {
        JsonView::Object(es) => keys_distinct(es) && values_unique(es),
        _ => true,
    }
}

/// The values of the entries `es` have distinct keys throughout.
pub open spec fn values_unique(es: Seq<(Seq<char>, JsonView)>) -> bool
    decreases es, 0nat,
{
    if es.len() == 0 {
        true
    } else {
        values_unique(es.drop_last()) && unique_keys(es.last().1)
    }
}

proof fn lemma_values_unique_at(es: Seq<(Seq<char>, JsonView)>, i: int)
    requires
        values_unique(es),
        0 <= i < es.len(),
    ensures
        unique_keys(es[i].1),
    decreases es.len(),
{
    if i < es.len() - 1 {
        assert(es.drop_last()[i] == es[i]);
        lemma_values_unique_at(es.drop_last(), i);
    }
}

/// `x` extends `a`: where both are objects, `x` has distinct keys, starts with the keys of
/// `a` in their order, and the value of each extends that in `a`.
spec fn extends(a: JsonView, x: JsonView) -> bool
    decreases a, 1nat, 0nat,
{
    match (a, x) {
        (JsonView::Object(ae), JsonView::Object(xe)) => keys_distinct(xe) && ae.len() <= xe.len() && pairs_extend(
            ae,
            xe,
            ae.len(),
        ),
        _ => true,
    }
}

/// The first `n` entries of `xe` have the keys of those of `ae`, and values that extend
/// theirs.
spec fn pairs_extend(ae: Seq<(Seq<char>, JsonView)>, xe: Seq<(Seq<char>, JsonView)>, n: nat) -> bool
    decreases ae, 0nat, n,
{
    if n == 0 || n > ae.len() || n > xe.len() {
        n == 0
    } else {
        pairs_extend(ae, xe, (n - 1) as nat) && xe[n - 1].0 == ae[n - 1].0 && extends(ae[n - 1].1, xe[n - 1].1)
    }
}

proof fn lemma_pairs_at(ae: Seq<(Seq<char>, JsonView)>, xe: Seq<(Seq<char>, JsonView)>, n: nat, i: int)
    requires
        pairs_extend(ae, xe, n),
        0 <= i < n,
    ensures
        xe[i].0 == ae[i].0,
        extends(ae[i].1, xe[i].1),
    decreases n,
{
    if i < n - 1 {
        lemma_pairs_at(ae, xe, (n - 1) as nat, i);
    }
}

proof fn lemma_pairs_build(ae: Seq<(Seq<char>, JsonView)>, xe: Seq<(Seq<char>, JsonView)>, n: nat)
    requires
        n <= ae.len(),
        n <= xe.len(),
        forall|i: int| #![trigger xe[i]] 0 <= i < n ==> xe[i].0 == ae[i].0 && extends(ae[i].1, xe[i].1),
    ensures
        pairs_extend(ae, xe, n),
    decreases n,
{
    if n > 0 {
        lemma_pairs_build(ae, xe, (n - 1) as nat);
        assert(extends(ae[n - 1].1, xe[n - 1].1));
    }
}

/// The merge of the first `j` entries of `xe` over `ae`, when `xe` extends `ae`.
spec fn merged_prefix(ae: Seq<(Seq<char>, JsonView)>, xe: Seq<(Seq<char>, JsonView)>, j: int) -> Seq<(Seq<char>, JsonView)> {
    if j < ae.len() {
        xe.take(j) + ae.skip(j)
    } else {
        xe.take(j)
    }
}

/// Merging a value that extends `a` over `a` gives that value.
#[verifier::spinoff_prover]
proof fn lemma_merge_extension(a: JsonView, x: JsonView)
    requires
        extends(a, x),
    ensures
        merged(a, x) == x,
    decreases a, 1nat, 0nat,
{
    match (a, x) {
        (JsonView::Object(ae), JsonView::Object(xe)) => {
            lemma_merge_extension_upto(a, x, xe.len() as int);
            assert(xe.take(xe.len() as int) =~= xe);
        },
        _ => {},
    }
}

#[verifier::spinoff_prover]
proof fn lemma_merge_extension_upto(a: JsonView, x: JsonView, j: int)
    requires
        extends(a, x),
        a is Object,
        x is Object,
        0 <= j <= x->Object_0.len(),
    ensures
        merged_entries(a->Object_0, x->Object_0.take(j)) == merged_prefix(a->Object_0, x->Object_0, j),
    decreases a, 0nat, j,
{
    let ae = a->Object_0;
    let xe = x->Object_0;
    assert(keys_distinct(xe) && ae.len() <= xe.len());
    assert forall|i: int| #![trigger xe[i]] 0 <= i < ae.len() implies xe[i].0 == ae[i].0 && extends(ae[i].1, xe[i].1) by {
        lemma_pairs_at(ae, xe, ae.len(), i);
    }
    if j == 0 {
        assert(xe.take(0) =~= Seq::<(Seq<char>, JsonView)>::empty());
        if ae.len() > 0 {
            assert(merged_prefix(ae, xe, 0) =~= ae);
        } else {
            assert(merged_prefix(ae, xe, 0) =~= ae);
        }
    } else {
        lemma_merge_extension_upto(a, x, j - 1);
        let before = merged_prefix(ae, xe, j - 1);
        assert(xe.take(j).drop_last() =~= xe.take(j - 1));
        assert(xe.take(j).last() == xe[j - 1]);
        let k = xe[j - 1].0;
        let v = xe[j - 1].1;
        if j - 1 < ae.len() {
            assert forall|i: int| 0 <= i < before.len() implies #[trigger] before[i].0 == xe[i].0 by {
                if i >= j - 1 {
                    assert(before[i] == ae[i]);
                    assert(xe[i].0 == ae[i].0);
                } else {
                    assert(before[i] == xe[i]);
                }
            }
            assert(before[j - 1] == ae[j - 1]);
            assert forall|i: int| j - 1 < i < before.len() implies before[i].0 != k by {
                assert(before[i].0 == xe[i].0);
            }
            lemma_key_index_is(before, k, j - 1);
            assert(decreases_to!(a => ae));
            assert(decreases_to!(ae => ae[j - 1]));
            assert(decreases_to!(ae[j - 1] => ae[j - 1].1));
            lemma_merge_extension(ae[j - 1].1, v);
            assert(before.update(j - 1, (k, merged(before[j - 1].1, v))) =~= merged_prefix(ae, xe, j));
        } else {
            assert(before =~= xe.take(j - 1));
            lemma_key_index(before, k);
            if key_index(before, k) is Some {
                let p = key_index(before, k).unwrap();
                assert(before[p].0 == xe[p].0);
            }
            assert(before.push((k, v)) =~= merged_prefix(ae, xe, j));
        }
    }
}

/// A value with distinct keys throughout extends itself.
#[verifier::spinoff_prover]
proof fn lemma_extends_self(a: JsonView)
    requires
        unique_keys(a),
    ensures
        extends(a, a),
    decreases a,
{
    match a {
        JsonView::Object(ae) => {
            assert forall|i: int| #![trigger ae[i]] 0 <= i < ae.len() implies ae[i].0 == ae[i].0 && extends(ae[i].1, ae[i].1) by {
                assert(decreases_to!(a => ae));
                assert(decreases_to!(ae => ae[i]));
                assert(decreases_to!(ae[i] => ae[i].1));
                lemma_values_unique_at(ae, i);
                lemma_extends_self(ae[i].1);
            }
            lemma_pairs_build(ae, ae, ae.len());
        },
        _ => {},
    }
}

/// The key `k` is among the keys of `es`.
spec fn has_key(es: Seq<(Seq<char>, JsonView)>, k: Seq<char>) -> bool {
    exists|l: int| 0 <= l < es.len() && es[l].0 == k
}

/// Merging `b` over `a` (both with distinct keys throughout) gives a value that extends `a`.
#[verifier::spinoff_prover]
proof fn lemma_merge_extends(a: JsonView, b: JsonView)
    requires
        unique_keys(a),
        unique_keys(b),
    ensures
        extends(a, merged(a, b)),
    decreases b, 1nat, 0nat,
{
    match (a, b) {
        (JsonView::Object(ae), JsonView::Object(be)) => {
            lemma_merge_extends_upto(a, b, be.len() as int);
            assert(be.take(be.len() as int) =~= be);
            let m = merged_entries(ae, be);
            lemma_pairs_build(ae, m, ae.len());
        },
        _ => {},
    }
}

#[verifier::spinoff_prover]
proof fn lemma_merge_extends_upto(a: JsonView, b: JsonView, j: int)
    requires
        unique_keys(a),
        unique_keys(b),
        a is Object,
        b is Object,
        0 <= j <= b->Object_0.len(),
    ensures
        ({
            let ae = a->Object_0;
            let be = b->Object_0;
            let r = merged_entries(ae, be.take(j));
            &&& keys_distinct(r)
            &&& ae.len() <= r.len()
            &&& forall|i: int| 0 <= i < ae.len() ==> {
                &&& (#[trigger] r[i]).0 == ae[i].0
                &&& extends(ae[i].1, r[i].1)
                &&& !has_key(be.take(j), ae[i].0) ==> r[i].1 == ae[i].1
            }
            &&& forall|i: int| ae.len() <= i < r.len() ==> has_key(be.take(j), #[trigger] r[i].0)
        }),
    decreases b, 0nat, j,
{
    let ae = a->Object_0;
    let be = b->Object_0;
    assert(keys_distinct(ae) && keys_distinct(be));
    assert forall|i: int| 0 <= i < ae.len() implies #[trigger] unique_keys(ae[i].1) by {
        lemma_values_unique_at(ae, i);
    }
    assert forall|i: int| 0 <= i < be.len() implies #[trigger] unique_keys(be[i].1) by {
        lemma_values_unique_at(be, i);
    }
    if j == 0 {
        assert(be.take(0) =~= Seq::<(Seq<char>, JsonView)>::empty());
        assert forall|i: int| 0 <= i < ae.len() implies #[trigger] extends(ae[i].1, ae[i].1) by {
            assert(unique_keys(ae[i].1));
            lemma_extends_self(ae[i].1);
        }
    } else {
        lemma_merge_extends_upto(a, b, j - 1);
        let r = merged_entries(ae, be.take(j - 1));
        let t = be.take(j);
        assert(t.drop_last() =~= be.take(j - 1));
        assert(t.last() == be[j - 1]);
        let k = be[j - 1].0;
        let v = be[j - 1].1;
        let prev = be.take(j - 1);
        assert(!has_key(prev, k));
        assert forall|kk: Seq<char>| has_key(t, kk) <==> (has_key(prev, kk) || kk == k) by {
            if has_key(t, kk) {
                let l = choose|l: int| 0 <= l < t.len() && t[l].0 == kk;
                if l < j - 1 {
                    assert(prev[l] == t[l]);
                }
            }
            if has_key(prev, kk) {
                let l = choose|l: int| 0 <= l < prev.len() && prev[l].0 == kk;
                assert(t[l] == prev[l]);
            }
            if kk == k {
                assert(t[j - 1].0 == k);
            }
        }
        lemma_key_index(r, k);
        match key_index(r, k) {
            Some(p) => {
                if p >= ae.len() {
                    assert(has_key(be.take(j - 1), r[p].0));
                    assert(false);
                }
                assert(r[p].0 == ae[p].0);
                assert(r[p].1 == ae[p].1);
                assert(decreases_to!(b => be));
                assert(decreases_to!(be => be[j - 1]));
                assert(decreases_to!(be[j - 1] => be[j - 1].1));
                assert(unique_keys(ae[p].1));
                assert(unique_keys(v));
                lemma_merge_extends(ae[p].1, v);
                let r2 = r.update(p, (k, merged(r[p].1, v)));
                assert(r2 == merged_entries(ae, t));
                assert forall|i: int| 0 <= i < ae.len() && i != p implies ae[i].0 != k by {
                    assert(r[i].0 == ae[i].0);
                }
            },
            None => {
                let r2 = r.push((k, v));
                assert(r2 == merged_entries(ae, t));
                assert(r2[r.len() as int].0 == k);
            },
        }
    }
}

/// Merging the defaults twice is merging them once: with distinct keys throughout (as
/// in JSON read from text), merging `defaults` under settings already merged over them
/// changes nothing.
pub proof fn lemma_merge_idempotent(defaults: JsonView, settings: JsonView)
    requires
        unique_keys(defaults),
        unique_keys(settings),
    ensures
        merged(defaults, merged(defaults, settings)) == merged(defaults, settings),
{
    lemma_merge_extends(defaults, settings);
    lemma_merge_extension(defaults, merged(defaults, settings));
}

/// A copy of a JSON value.
pub fn copy_json(j: &Json) -> (r: Json)
    ensures
        json_view(r) == json_view(*j),
    decreases j,
{
    match j {
        Json::Null => Json::Null,
        Json::Bool(b) => Json::Bool(*b),
        Json::Number(n) => Json::Number(n.clone()),
        Json::Str(s) => Json::Str(s.clone()),
        Json::Array(v) => {
            let mut out: Vec<Json> = Vec::new();
            let mut i: usize = 0;
            while i < v.len()
                invariant
                    i <= v@.len(),
                    *j == Json::Array(*v),
                    items_view(out@) == items_view(v@.take(i as int)),
                decreases v@.len() - i,
            {
                assert(v@.take(i + 1).drop_last() =~= v@.take(i as int));
                assert(v@.take(i + 1).last() == v@[i as int]);
                proof {
                    assert(decreases_to!(*j => (*j)->Array_0));
                    assert(decreases_to!(*v => v@));
                    assert(decreases_to!(v@ => v@[i as int]));
                }
                let c = copy_json(&v[i]);
                let ghost before = out@;
                out.push(c);
                assert(out@.drop_last() =~= before);
                i = i + 1;
            }
            assert(v@.take(v@.len() as int) =~= v@);
            Json::Array(out)
        },
        Json::Object(v) => {
            let mut out: Vec<(String, Json)> = Vec::new();
            let mut i: usize = 0;
            while i < v.len()
                invariant
                    i <= v@.len(),
                    *j == Json::Object(*v),
                    entries_view(out@) == entries_view(v@.take(i as int)),
                decreases v@.len() - i,
            {
                assert(v@.take(i + 1).drop_last() =~= v@.take(i as int));
                assert(v@.take(i + 1).last() == v@[i as int]);
                proof {
                    assert(decreases_to!(*j => (*j)->Object_0));
                    assert(decreases_to!(*v => v@));
                    assert(decreases_to!(v@ => v@[i as int]));
                    assert(decreases_to!(v@[i as int] => v@[i as int].1));
                }
                let c = copy_json(&v[i].1);
                let ghost before = out@;
                out.push((v[i].0.clone(), c));
                assert(out@.drop_last() =~= before);
                i = i + 1;
            }
            assert(v@.take(v@.len() as int) =~= v@);
            Json::Object(out)
        },
    }
}

proof fn lemma_entries_view(s: Seq<(String, Json)>)
    ensures
        entries_view(s).len() == s.len(),
        forall|j: int| 0 <= j < s.len() ==> #[trigger] entries_view(s)[j] == (s[j].0@, json_view(s[j].1)),
    decreases s.len(),
{
    if s.len() > 0 {
        lemma_entries_view(s.drop_last());
        assert forall|j: int| 0 <= j < s.len() implies #[trigger] entries_view(s)[j] == (s[j].0@, json_view(s[j].1)) by {
            if j < s.len() - 1 {
                assert(s.drop_last()[j] == s[j]);
            }
        }
    }
}

proof fn lemma_entries_view_update(s: Seq<(String, Json)>, j: int, e: (String, Json))
    requires
        0 <= j < s.len(),
    ensures
        entries_view(s.update(j, e)) == entries_view(s).update(j, (e.0@, json_view(e.1))),
{
    lemma_entries_view(s);
    lemma_entries_view(s.update(j, e));
    assert(entries_view(s.update(j, e)) =~= entries_view(s).update(j, (e.0@, json_view(e.1))));
}

/// The position of the last entry with key `k`.
fn find_key(s: &Vec<(String, Json)>, k: &String) -> (r: Option<usize>)
    ensures
        match r {
            Some(j) => j < s@.len() && key_index(entries_view(s@), k@) == Some(j as int),
            None => key_index(entries_view(s@), k@) is None,
        },
{
    proof {
        lemma_entries_view(s@);
        assert(entries_view(s@).take(s@.len() as int) =~= entries_view(s@));
    }
    let kc = chars_of(k.as_str());
    let mut i: usize = s.len();
    while i > 0
        invariant
            i <= s@.len(),
            kc@ == k@,
            entries_view(s@).len() == s@.len(),
            forall|j: int| 0 <= j < s@.len() ==> #[trigger] entries_view(s@)[j] == (s@[j].0@, json_view(s@[j].1)),
            key_index(entries_view(s@), k@) == key_index(entries_view(s@).take(i as int), k@),
        decreases i,
    {
        let ghost t = entries_view(s@).take(i as int);
        assert(t.drop_last() =~= entries_view(s@).take(i - 1));
        assert(t.last() == entries_view(s@)[i - 1]);
        if crate::text::chars_eq(&chars_of(s[i - 1].0.as_str()), &kc) {
            return Some(i - 1);
        }
        i = i - 1;
    }
    None
}

/// `b` deep-merged over `a` (see `merged`).
pub fn merge_json(a: &Json, b: &Json) -> (r: Json)
    ensures
        json_view(r) == merged(json_view(*a), json_view(*b)),
    decreases b,
{
    match (a, b) {
        (Json::Object(ao), Json::Object(bo)) => {
            let copied = copy_json(a);
            let mut result: Vec<(String, Json)> = match copied {
                Json::Object(v) => v,
                _ => Vec::new(),
            };
            let mut i: usize = 0;
            while i < bo.len()
                invariant
                    i <= bo@.len(),
                    *b == Json::Object(*bo),
                    entries_view(result@) == merged_entries(entries_view(ao@), entries_view(bo@.take(i as int))),
                decreases bo@.len() - i,
            {
                let ghost t = bo@.take(i + 1);
                assert(t.drop_last() =~= bo@.take(i as int));
                assert(t.last() == bo@[i as int]);
                assert(entries_view(t).drop_last() == entries_view(bo@.take(i as int)));
                proof {
                    assert(decreases_to!(*b => (*b)->Object_0));
                    assert(decreases_to!(*bo => bo@));
                    assert(decreases_to!(bo@ => bo@[i as int]));
                    assert(decreases_to!(bo@[i as int] => bo@[i as int].1));
                    lemma_entries_view(result@);
                }
                match find_key(&result, &bo[i].0) {
                    Some(j) => {
                        let m = merge_json(&result[j].1, &bo[i].1);
                        let e = (bo[i].0.clone(), m);
                        proof {
                            lemma_entries_view_update(result@, j as int, e);
                        }
                        result.set(j, e);
                    },
                    None => {
                        let e = (bo[i].0.clone(), copy_json(&bo[i].1));
                        let ghost before = result@;
                        result.push(e);
                        assert(result@.drop_last() =~= before);
                    },
                }
                i = i + 1;
            }
            assert(bo@.take(bo@.len() as int) =~= bo@);
            Json::Object(result)
        },
        _ => copy_json(b),
    }
}

/// The id of a plugin: `hive.<kind>.<name>` (kinds: `runner`, `env`, `health`,
/// `rollout`, `obs`, ...).
pub fn plugin_id(kind: &str, name: &str) -> (r: String)
    ensures
        r@ == "hive."@ + kind@ + "."@ + name@,
{
    let mut id = "hive.".to_owned();
    id.append(kind);
    id.append(".");
    id.append(name);
    id
}

/// The defaults of each plugin id.
#[derive(Debug)]
pub struct DefaultsManager {
    pub defaults: Vec<(String, Json)>,
}

/// An empty JSON object.
pub open spec fn empty_object() -> JsonView {
    JsonView::Object(Seq::empty())
}

impl DefaultsManager {
    /// The defaults of each plugin id.
    pub open spec fn view(&self) -> Map<Seq<char>, JsonView> {
        assoc_view(self.defaults@).map_values(|j: Json| json_view(j))
    }

    /// The defaults of a plugin: what is configured for it, else an empty object.
    pub open spec fn defaults_of(&self, id: Seq<char>) -> JsonView {
        if self.view().contains_key(id) {
            self.view()[id]
        } else {
            empty_object()
        }
    }

    /// No defaults.
    pub fn new() -> (r: Self)
        ensures
            r.view() == Map::<Seq<char>, JsonView>::empty(),
    {
        let r = DefaultsManager { defaults: Vec::new() };
        assert(r.view() =~= Map::<Seq<char>, JsonView>::empty());
        r
    }

    /// The defaults section of a configuration.
    pub fn from_config(defaults: Vec<(String, Json)>) -> (r: Self)
        ensures
            r.defaults == defaults,
    {
        DefaultsManager { defaults }
    }

    /// The defaults of `plugin_id`, if configured.
    pub fn get(&self, plugin_id: &str) -> (r: Option<&Json>)
        ensures
            match r {
                Some(j) => self.view().contains_key(plugin_id@) && self.view()[plugin_id@] == json_view(*j),
                None => !self.view().contains_key(plugin_id@),
            },
    {
        match assoc_find(&self.defaults, &chars_of(plugin_id)) {
            Some(j) => Some(&self.defaults[j].1),
            None => None,
        }
    }

    /// The defaults of `plugin_id`, or an empty object.
    pub fn get_or_empty(&self, plugin_id: &str) -> (r: Json)
        ensures
            json_view(r) == self.defaults_of(plugin_id@),
    {
        match self.get(plugin_id) {
            Some(j) => copy_json(j),
            None => {
                let r = Json::Object(Vec::new());
                assert(entries_view(Seq::<(String, Json)>::empty()) =~= Seq::<(Seq<char>, JsonView)>::empty());
                r
            },
        }
    }

    /// A use's settings merged over the defaults of its plugin: the use's settings win.
    pub fn merge_with(&self, plugin_id: &str, service_config: &Json) -> (r: Json)
        ensures
            json_view(r) == merged(self.defaults_of(plugin_id@), json_view(*service_config)),
    {
        let defaults = self.get_or_empty(plugin_id);
        merge_json(&defaults, service_config)
    }

    /// Sets the defaults of `plugin_id`.
    pub fn set(&mut self, plugin_id: &str, config: Json)
        ensures
            final(self).view() == old(self).view().insert(plugin_id@, json_view(config)),
    {
        let ghost cv = json_view(config);
        let e = (plugin_id.to_owned(), config);
        match assoc_find(&self.defaults, &chars_of(plugin_id)) {
            Some(j) => {
                proof {
                    lemma_assoc_replace_last(self.defaults@, j as int, e);
                }
                self.defaults.set(j, e);
            },
            None => {
                proof {
                    lemma_assoc_push(self.defaults@, e);
                }
                self.defaults.push(e);
            },
        }
        assert(self.view() =~= old(self).view().insert(plugin_id@, cv));
    }

    /// The plugin ids that have defaults.
    pub fn plugin_ids(&self) -> (r: Vec<String>)
        ensures
            forall|k: Seq<char>| (exists|i: int| 0 <= i < r@.len() && #[trigger] r@[i]@ == k) <==> self.view().contains_key(k),
    {
        let mut r: Vec<String> = Vec::new();
        let mut i: usize = 0;
        while i < self.defaults.len()
            invariant
                i <= self.defaults@.len(),
                r@.len() == i,
                forall|j: int| 0 <= j < i ==> #[trigger] r@[j]@ == self.defaults@[j].0@,
            decreases self.defaults@.len() - i,
        {
            r.push(self.defaults[i].0.clone());
            i = i + 1;
        }
        proof {
            assert forall|k: Seq<char>| (exists|i: int| 0 <= i < r@.len() && #[trigger] r@[i]@ == k) <==> self.view().contains_key(k) by {
                if exists|i: int| 0 <= i < r@.len() && #[trigger] r@[i]@ == k {
                    let i = choose|i: int| 0 <= i < r@.len() && #[trigger] r@[i]@ == k;
                    lemma_assoc_has_key(self.defaults@, i);
                }
                if self.view().contains_key(k) {
                    if forall|i: int| 0 <= i < self.defaults@.len() ==> (#[trigger] self.defaults@[i]).0@ != k {
                        crate::assoc::lemma_not_key(self.defaults@, k);
                    }
                    let i = choose|i: int| 0 <= i < self.defaults@.len() && (#[trigger] self.defaults@[i]).0@ == k;
                    assert(r@[i]@ == k);
                }
            }
        }
        r
    }
}

/// Replacing the value at the position of the last pair with a key replaces the key's
/// value in the map view.
proof fn lemma_assoc_replace_last<V>(m: Seq<(String, V)>, j: int, e: (String, V))
    requires
        0 <= j < m.len(),
        m[j].0@ == e.0@,
        forall|i: int| j < i < m.len() ==> (#[trigger] m[i]).0@ != e.0@,
    ensures
        assoc_view(m.update(j, e)) == assoc_view(m).insert(e.0@, e.1),
    decreases m.len(),
{
    let u = m.update(j, e);
    if j == m.len() - 1 {
        assert(u.drop_last() =~= m.drop_last());
        assert(assoc_view(u) =~= assoc_view(m).insert(e.0@, e.1));
    } else {
        let d = m.drop_last();
        assert forall|i: int| j < i < d.len() implies (#[trigger] d[i]).0@ != e.0@ by {
            assert(d[i] == m[i]);
        }
        lemma_assoc_replace_last(d, j, e);
        assert(u.drop_last() =~= d.update(j, e));
        assert(m.last() == m[m.len() - 1]);
        assert(assoc_view(u) =~= assoc_view(m).insert(e.0@, e.1));
    }
}

/// `after` is the providers `before` with the defaults of each provider's plugin
/// (`hive.env.<name>`) merged under its settings.
pub open spec fn env_defaults_applied(d: DefaultsManager, before: Seq<(String, Json)>, after: Seq<(String, Json)>) -> bool {
    &&& after.len() == before.len()
    &&& forall|i: int| 0 <= i < before.len() ==> {
        &&& (#[trigger] after[i]).0@ == before[i].0@
        &&& json_view(after[i].1) == merged(d.defaults_of("hive.env."@ + before[i].0@), json_view(before[i].1))
    }
}

/// `after` is the sections `before` with the defaults of the plugin
/// `hive.<kind>.<plugin_type>` merged under the section called `plugin_type` (the last
/// such section), and every other section unchanged.
pub open spec fn type_defaults_applied(d: DefaultsManager, kind: Seq<char>, plugin_type: Seq<char>, before: Seq<(String, Json)>, after: Seq<(String, Json)>) -> bool {
    &&& after.len() == before.len()
    &&& forall|i: int| 0 <= i < before.len() ==> (#[trigger] after[i]).0@ == before[i].0@
    &&& match key_index(entries_view(before), plugin_type) {
        Some(j) => {
            &&& json_view(after[j].1) == merged(
                d.defaults_of("hive."@ + kind + "."@ + plugin_type),
                json_view(before[j].1),
            )
            &&& forall|i: int| 0 <= i < before.len() && i != j ==> #[trigger] after[i] == before[i]
        },
        None => after == before,
    }
}

/// Merges the defaults of each environment provider (`hive.env.<name>`) under its
/// settings.
pub fn apply_env_defaults(defaults: &DefaultsManager, providers: &mut Vec<(String, Json)>)
    ensures
        env_defaults_applied(*defaults, old(providers)@, final(providers)@),
{
    let ghost start = providers@;
    let mut i: usize = 0;
    while i < providers.len()
        invariant
            i <= providers@.len(),
            providers@.len() == start.len(),
            forall|j: int| i <= j < start.len() ==> #[trigger] providers@[j] == start[j],
            forall|j: int| 0 <= j < i ==> {
                &&& (#[trigger] providers@[j]).0@ == start[j].0@
                &&& json_view(providers@[j].1) == merged(
                    defaults.defaults_of("hive.env."@ + start[j].0@),
                    json_view(start[j].1),
                )
            },
        decreases providers@.len() - i,
    {
        let id = plugin_id("env", providers[i].0.as_str());
        proof {
            reveal_strlit("env");
            reveal_strlit("hive.env.");
            reveal_strlit("hive.");
            reveal_strlit(".");
            assert(id@ =~= "hive.env."@ + start[i as int].0@);
        }
        let merged_config = defaults.merge_with(id.as_str(), &providers[i].1);
        let name = providers[i].0.clone();
        providers.set(i, (name, merged_config));
        i = i + 1;
    }
}

/// Merges the defaults of the plugin `hive.<kind>.<plugin_type>` under the settings of the
/// section called `plugin_type`, if there is one (the last such section).
pub fn apply_type_defaults(defaults: &DefaultsManager, kind: &str, plugin_type: &str, config: &mut Vec<(String, Json)>)
    ensures
        type_defaults_applied(*defaults, kind@, plugin_type@, old(config)@, final(config)@),
{
    let key = plugin_type.to_owned();
    proof {
        lemma_entries_view(config@);
    }
    match find_key(config, &key) {
        Some(j) => {
            let id = plugin_id(kind, plugin_type);
            let merged_config = defaults.merge_with(id.as_str(), &config[j].1);
            let name = config[j].0.clone();
            config.set(j, (name, merged_config));
        },
        None => {},
    }
}

proof fn lemma_key_index_same_keys(s1: Seq<(Seq<char>, JsonView)>, s2: Seq<(Seq<char>, JsonView)>, k: Seq<char>)
    requires
        s1.len() == s2.len(),
        forall|i: int| 0 <= i < s1.len() ==> (#[trigger] s1[i]).0 == s2[i].0,
    ensures
        key_index(s1, k) == key_index(s2, k),
    decreases s1.len(),
{
    if s1.len() > 0 {
        assert(s1.last().0 == s2.last().0);
        assert forall|i: int| 0 <= i < s1.len() - 1 implies (#[trigger] s1.drop_last()[i]).0 == s2.drop_last()[i].0 by {
            assert(s1.drop_last()[i] == s1[i]);
            assert(s2.drop_last()[i] == s2[i]);
        }
        lemma_key_index_same_keys(s1.drop_last(), s2.drop_last(), k);
    }
}

/// Applying a type's defaults twice is applying them once: with distinct keys throughout
/// the defaults and the sections (as in JSON read from text), a second application
/// changes nothing.
pub proof fn lemma_type_defaults_twice(
    d: DefaultsManager,
    kind: Seq<char>,
    plugin_type: Seq<char>,
    before: Seq<(String, Json)>,
    once: Seq<(String, Json)>,
    twice: Seq<(String, Json)>,
)
    requires
        type_defaults_applied(d, kind, plugin_type, before, once),
        type_defaults_applied(d, kind, plugin_type, once, twice),
        unique_keys(d.defaults_of("hive."@ + kind + "."@ + plugin_type)),
        forall|i: int| 0 <= i < before.len() ==> unique_keys(json_view(#[trigger] before[i].1)),
    ensures
        entries_view(twice) == entries_view(once),
{
    lemma_entries_view(before);
    lemma_entries_view(once);
    lemma_entries_view(twice);
    let eb = entries_view(before);
    let eo = entries_view(once);
    assert forall|i: int| 0 <= i < eb.len() implies (#[trigger] eb[i]).0 == eo[i].0 by {
        assert(once[i].0@ == before[i].0@);
    }
    lemma_key_index_same_keys(eb, eo, plugin_type);
    match key_index(eb, plugin_type) {
        Some(j) => {
            let dv = d.defaults_of("hive."@ + kind + "."@ + plugin_type);
            lemma_key_index(eb, plugin_type);
            assert(unique_keys(json_view(before[j].1)));
            lemma_merge_idempotent(dv, json_view(before[j].1));
            assert forall|i: int| 0 <= i < eo.len() implies #[trigger] entries_view(twice)[i] == eo[i] by {
                if i == j {
                    assert(twice[i].0@ == once[i].0@);
                } else {
                    assert(twice[i] == once[i]);
                }
            }
            assert(entries_view(twice) =~= eo);
        },
        None => {},
    }
}

/// Applying the environment defaults twice is applying them once, with distinct keys
/// throughout the defaults and the providers' settings.
pub proof fn lemma_env_defaults_twice(d: DefaultsManager, before: Seq<(String, Json)>, once: Seq<(String, Json)>, twice: Seq<(String, Json)>)
    requires
        env_defaults_applied(d, before, once),
        env_defaults_applied(d, once, twice),
        forall|i: int| 0 <= i < before.len() ==> {
            &&& unique_keys(d.defaults_of("hive.env."@ + (#[trigger] before[i]).0@))
            &&& unique_keys(json_view(before[i].1))
        },
    ensures
        entries_view(twice) == entries_view(once),
{
    lemma_entries_view(once);
    lemma_entries_view(twice);
    assert forall|i: int| 0 <= i < once.len() implies #[trigger] entries_view(twice)[i] == entries_view(once)[i] by {
        assert(once[i].0@ == before[i].0@);
        lemma_merge_idempotent(d.defaults_of("hive.env."@ + before[i].0@), json_view(before[i].1));
    }
    assert(entries_view(twice) =~= entries_view(once));
}

/// One use of a plugin: which plugin of its kind (`docker`, `http`, ...), and the
/// settings sections under it, keyed by plugin type.
#[derive(Debug)]
pub struct TypedSections {
    pub plugin_type: String,
    pub config: Vec<(String, Json)>,
}

/// The parts of a service's configuration that plugin defaults apply to.
#[derive(Debug)]
pub struct ServiceDefaultsTarget {
    pub runner: TypedSections,
    pub environment: Option<Vec<(String, Json)>>,
    pub healthchecks: Vec<TypedSections>,
    pub rollout: Option<TypedSections>,
}

/// `after` is the plugin use `before` with the defaults of `hive.<kind>.<its type>`
/// applied (see `type_defaults_applied`).
pub open spec fn typed_applied(d: DefaultsManager, kind: Seq<char>, before: TypedSections, after: TypedSections) -> bool {
    &&& after.plugin_type@ == before.plugin_type@
    &&& type_defaults_applied(d, kind, before.plugin_type@, before.config@, after.config@)
}

/// `after` is the service `before` with the defaults applied to its runner, its
/// environment providers, each of its health checks and its rollout.
pub open spec fn service_defaults_applied(d: DefaultsManager, before: ServiceDefaultsTarget, after: ServiceDefaultsTarget) -> bool {
    &&& typed_applied(d, "runner"@, before.runner, after.runner)
    &&& match (before.environment, after.environment) {
        (Some(b), Some(a)) => env_defaults_applied(d, b@, a@),
        (None, None) => true,
        _ => false,
    }
    &&& after.healthchecks@.len() == before.healthchecks@.len()
    &&& forall|i: int| 0 <= i < before.healthchecks@.len() ==>
        typed_applied(d, "health"@, #[trigger] before.healthchecks@[i], after.healthchecks@[i])
    &&& match (before.rollout, after.rollout) {
        (Some(b), Some(a)) => typed_applied(d, "rollout"@, b, a),
        (None, None) => true,
        _ => false,
    }
}

/// Merges the defaults of `hive.runner.<type>` under the runner's section for its type.
pub fn apply_runner_defaults(defaults: &DefaultsManager, config: &mut TypedSections)
    ensures
        typed_applied(*defaults, "runner"@, *old(config), *final(config)),
{
    apply_type_defaults(defaults, "runner", config.plugin_type.as_str(), &mut config.config);
}

/// Merges the defaults of `hive.health.<type>` under the check's section for its type.
pub fn apply_health_defaults(defaults: &DefaultsManager, config: &mut TypedSections)
    ensures
        typed_applied(*defaults, "health"@, *old(config), *final(config)),
{
    apply_type_defaults(defaults, "health", config.plugin_type.as_str(), &mut config.config);
}

/// Merges the defaults of `hive.rollout.<type>` under the rollout's section for its type.
pub fn apply_rollout_defaults(defaults: &DefaultsManager, config: &mut TypedSections)
    ensures
        typed_applied(*defaults, "rollout"@, *old(config), *final(config)),
{
    apply_type_defaults(defaults, "rollout", config.plugin_type.as_str(), &mut config.config);
}

/// Applies the defaults to a service's runner, environment providers, health checks and
/// rollout.
pub fn apply_service_defaults(defaults: &DefaultsManager, config: &mut ServiceDefaultsTarget)
    ensures
        service_defaults_applied(*defaults, *old(config), *final(config)),
{
    apply_runner_defaults(defaults, &mut config.runner);
    match &mut config.environment {
        Some(env) => apply_env_defaults(defaults, env),
        None => {},
    }
    let ghost start = config.healthchecks@;
    let mut rest: Vec<TypedSections> = Vec::new();
    std::mem::swap(&mut rest, &mut config.healthchecks);
    let mut done: Vec<TypedSections> = Vec::new();
    while rest.len() > 0
        invariant
            done@.len() + rest@.len() == start.len(),
            rest@ == start.subrange(done@.len() as int, start.len() as int),
            forall|i: int| 0 <= i < done@.len() ==>
                typed_applied(*defaults, "health"@, #[trigger] start[i], done@[i]),
        decreases rest@.len(),
    {
        let mut check = rest.remove(0);
        apply_health_defaults(defaults, &mut check);
        done.push(check);
    }
    config.healthchecks = done;
    match &mut config.rollout {
        Some(r) => apply_rollout_defaults(defaults, r),
        None => {},
    }
}

/// `services_after` and `env_after` are the services `services_before` and the global
/// environment providers `env_before` with the defaults `d` applied: the services keep
/// their names and get their defaults (see `service_defaults_applied`), and the providers
/// theirs.
pub open spec fn all_defaults_applied(
    d: DefaultsManager,
    services_before: Seq<(String, ServiceDefaultsTarget)>,
    services_after: Seq<(String, ServiceDefaultsTarget)>,
    env_before: Option<Vec<(String, Json)>>,
    env_after: Option<Vec<(String, Json)>>,
) -> bool {
    &&& services_after.len() == services_before.len()
    &&& forall|i: int| 0 <= i < services_before.len() ==> {
        &&& (#[trigger] services_after[i]).0@ == services_before[i].0@
        &&& service_defaults_applied(d, services_before[i].1, services_after[i].1)
    }
    &&& match (env_before, env_after) {
        (Some(b), Some(a)) => env_defaults_applied(d, b@, a@),
        (None, None) => true,
        _ => false,
    }
}

/// The settings of a plugin use, as plain values.
pub open spec fn typed_view(t: TypedSections) -> (Seq<char>, Seq<(Seq<char>, JsonView)>) {
    (t.plugin_type@, entries_view(t.config@))
}

/// The parts of a service that defaults apply to, as plain values.
pub open spec fn service_view(s: ServiceDefaultsTarget) -> (
    (Seq<char>, Seq<(Seq<char>, JsonView)>),
    Option<Seq<(Seq<char>, JsonView)>>,
    Seq<(Seq<char>, Seq<(Seq<char>, JsonView)>)>,
    Option<(Seq<char>, Seq<(Seq<char>, JsonView)>)>,
) {
    (
        typed_view(s.runner),
        match s.environment {
            Some(e) => Some(entries_view(e@)),
            None => None,
        },
        s.healthchecks@.map_values(|t: TypedSections| typed_view(t)),
        match s.rollout {
            Some(r) => Some(typed_view(r)),
            None => None,
        },
    )
}

/// The sections hold JSON with distinct keys throughout.
pub open spec fn sections_unique(c: Seq<(String, Json)>) -> bool {
    forall|i: int| 0 <= i < c.len() ==> unique_keys(json_view(#[trigger] c[i].1))
}

/// A plugin use and its plugin's defaults hold JSON with distinct keys throughout.
pub open spec fn typed_unique(d: DefaultsManager, kind: Seq<char>, t: TypedSections) -> bool {
    unique_keys(d.defaults_of("hive."@ + kind + "."@ + t.plugin_type@)) && sections_unique(t.config@)
}

/// Environment providers and their defaults hold JSON with distinct keys throughout.
pub open spec fn env_unique(d: DefaultsManager, ps: Seq<(String, Json)>) -> bool {
    forall|i: int| 0 <= i < ps.len() ==> {
        &&& unique_keys(d.defaults_of("hive.env."@ + (#[trigger] ps[i]).0@))
        &&& unique_keys(json_view(ps[i].1))
    }
}

/// A service's settings and the defaults they get hold JSON with distinct keys throughout.
pub open spec fn service_unique(d: DefaultsManager, s: ServiceDefaultsTarget) -> bool {
    &&& typed_unique(d, "runner"@, s.runner)
    &&& match s.environment {
        Some(e) => env_unique(d, e@),
        None => true,
    }
    &&& forall|i: int| 0 <= i < s.healthchecks@.len() ==> typed_unique(d, "health"@, #[trigger] s.healthchecks@[i])
    &&& match s.rollout {
        Some(r) => typed_unique(d, "rollout"@, r),
        None => true,
    }
}

proof fn lemma_typed_twice(d: DefaultsManager, kind: Seq<char>, t0: TypedSections, t1: TypedSections, t2: TypedSections)
    requires
        typed_applied(d, kind, t0, t1),
        typed_applied(d, kind, t1, t2),
        typed_unique(d, kind, t0),
    ensures
        typed_view(t2) == typed_view(t1),
{
    lemma_type_defaults_twice(d, kind, t0.plugin_type@, t0.config@, t1.config@, t2.config@);
}

/// Applying the defaults to a service twice is applying them once, where its settings and
/// the defaults hold JSON with distinct keys throughout.
pub proof fn lemma_service_defaults_twice(d: DefaultsManager, s0: ServiceDefaultsTarget, s1: ServiceDefaultsTarget, s2: ServiceDefaultsTarget)
    requires
        service_defaults_applied(d, s0, s1),
        service_defaults_applied(d, s1, s2),
        service_unique(d, s0),
    ensures
        service_view(s2) == service_view(s1),
{
    lemma_typed_twice(d, "runner"@, s0.runner, s1.runner, s2.runner);
    match (s0.environment, s1.environment, s2.environment) {
        (Some(e0), Some(e1), Some(e2)) => {
            lemma_env_defaults_twice(d, e0@, e1@, e2@);
        },
        _ => {},
    }
    assert forall|i: int| 0 <= i < s1.healthchecks@.len() implies
        #[trigger] typed_view(s2.healthchecks@[i]) == typed_view(s1.healthchecks@[i]) by {
        lemma_typed_twice(d, "health"@, s0.healthchecks@[i], s1.healthchecks@[i], s2.healthchecks@[i]);
    }
    assert(s2.healthchecks@.map_values(|t: TypedSections| typed_view(t)) =~= s1.healthchecks@.map_values(
        |t: TypedSections| typed_view(t),
    ));
    match (s0.rollout, s1.rollout, s2.rollout) {
        (Some(r0), Some(r1), Some(r2)) => {
            lemma_typed_twice(d, "rollout"@, r0, r1, r2);
        },
        _ => {},
    }
}

/// Applying all the defaults twice is applying them once: the services (by name) and the
/// global environment providers come out as after the first time, where the settings and
/// the defaults hold JSON with distinct keys throughout.
pub proof fn lemma_all_defaults_twice(
    d: DefaultsManager,
    s0: Seq<(String, ServiceDefaultsTarget)>,
    s1: Seq<(String, ServiceDefaultsTarget)>,
    s2: Seq<(String, ServiceDefaultsTarget)>,
    e0: Option<Vec<(String, Json)>>,
    e1: Option<Vec<(String, Json)>>,
    e2: Option<Vec<(String, Json)>>,
)
    requires
        all_defaults_applied(d, s0, s1, e0, e1),
        all_defaults_applied(d, s1, s2, e1, e2),
        forall|i: int| 0 <= i < s0.len() ==> service_unique(d, (#[trigger] s0[i]).1),
        e0 matches Some(e) ==> env_unique(d, e@),
    ensures
        s2.len() == s1.len(),
        forall|i: int| 0 <= i < s1.len() ==> (#[trigger] s2[i]).0@ == s1[i].0@ && service_view(s2[i].1) == service_view(
            s1[i].1,
        ),
        match (e1, e2) {
            (Some(a), Some(b)) => entries_view(b@) == entries_view(a@),
            (None, None) => true,
            _ => false,
        },
{
    assert forall|i: int| 0 <= i < s1.len() implies (#[trigger] s2[i]).0@ == s1[i].0@ && service_view(s2[i].1)
        == service_view(s1[i].1) by {
        assert(service_unique(d, s0[i].1));
        assert(s1[i].0@ == s0[i].0@);
        lemma_service_defaults_twice(d, s0[i].1, s1[i].1, s2[i].1);
    }
    match (e0, e1, e2) {
        (Some(a0), Some(a1), Some(a2)) => {
            lemma_env_defaults_twice(d, a0@, a1@, a2@);
        },
        _ => {},
    }
}

/// Applies the configuration's `defaults` section to every service and to the global
/// environment providers.
pub fn apply_all_defaults(
    defaults: Vec<(String, Json)>,
    services: &mut Vec<(String, ServiceDefaultsTarget)>,
    environment: &mut Option<Vec<(String, Json)>>,
)
    ensures
        all_defaults_applied(
            (DefaultsManager { defaults }),
            old(services)@,
            final(services)@,
            *old(environment),
            *final(environment),
        ),
{
    let ghost dv = defaults;
    let manager = DefaultsManager::from_config(defaults);
    assert(manager == (DefaultsManager { defaults: dv }));
    let ghost start = services@;
    let mut rest: Vec<(String, ServiceDefaultsTarget)> = Vec::new();
    std::mem::swap(&mut rest, services);
    let mut done: Vec<(String, ServiceDefaultsTarget)> = Vec::new();
    while rest.len() > 0
        invariant
            done@.len() + rest@.len() == start.len(),
            rest@ == start.subrange(done@.len() as int, start.len() as int),
            forall|i: int| 0 <= i < done@.len() ==> {
                &&& (#[trigger] done@[i]).0@ == start[i].0@
                &&& service_defaults_applied(manager, start[i].1, done@[i].1)
            },
        decreases rest@.len(),
    {
        let (name, mut service) = rest.remove(0);
        apply_service_defaults(&manager, &mut service);
        done.push((name, service));
    }
    *services = done;
    match environment {
        Some(env) => apply_env_defaults(&manager, env),
        None => {},
    }
}

/// The value of the member `k` of an object (the last entry with that key); `None` for
/// a value that is not an object or has no such member.
pub open spec fn json_member(v: JsonView, k: Seq<char>) -> Option<JsonView> {
    match v {
        JsonView::Object(es) => match key_index(es, k) {
            Some(i) => Some(es[i].1),
            None => None,
        },
        _ => None,
    }
}

/// The member `key` of an object.
pub fn json_get<'a>(j: &'a Json, key: &str) -> (r: Option<&'a Json>)
    ensures
        match r {
            Some(m) => json_member(json_view(*j), key@) == Some(json_view(*m)),
            None => json_member(json_view(*j), key@) is None,
        },
{
    match j {
        Json::Object(v) => {
            proof {
                lemma_entries_view(v@);
            }
            let k = key.to_owned();
            match find_key(v, &k) {
                Some(i) => Some(&v[i].1),
                None => None,
            }
        },
        _ => None,
    }
}

} // verus!
