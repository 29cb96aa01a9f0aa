//! Association lists keyed by strings.
//!
//! The configuration model keeps name-indexed tables (ports by name, variables
//! by key, ...) as vectors of `(String, V)` pairs. Later entries override
//! earlier ones with the same key, which is what inserting the pairs one after
//! another into a map gives.

use vstd::prelude::*;
use crate::text::{chars_eq, chars_of};

verus! {

/// The map that inserting the pairs of `m` in order gives.
pub open spec fn assoc_view<V>(m: Seq<(String, V)>) -> Map<Seq<char>, V>
    decreases m.len(),
{
    if m.len() == 0 {
        Map::empty()
    } else {
        assoc_view(m.drop_last()).insert(m.last().0@, m.last().1)
    }
}

/// The keys of the pairs of `m`, in order.
pub open spec fn assoc_keys<V>(m: Seq<(String, V)>) -> Seq<Seq<char>> {
    m.map_values(|e: (String, V)| e.0@)
}

/// If no pair at or after `i` has key `k`, the pairs before `i` decide the lookup of `k`.
pub proof fn lemma_assoc_tail_irrelevant<V>(m: Seq<(String, V)>, i: int, k: Seq<char>)
    requires
        0 <= i <= m.len(),
        forall|j: int| i <= j < m.len() ==> (#[trigger] m[j]).0@ != k,
    ensures
        assoc_view(m).contains_key(k) == assoc_view(m.take(i)).contains_key(k),
        assoc_view(m).contains_key(k) ==> assoc_view(m)[k] == assoc_view(m.take(i))[k],
    decreases m.len(),
{
    if m.len() > i {
        assert(m.last() == m[m.len() - 1]);
        assert forall|j: int| i <= j < m.drop_last().len() implies (
        #[trigger] m.drop_last()[j]).0@ != k by {
            assert(m.drop_last()[j] == m[j]);
        }
        lemma_assoc_tail_irrelevant(m.drop_last(), i, k);
        assert(m.drop_last().take(i) =~= m.take(i));
    } else {
        assert(m.take(i) =~= m);
    }
}

/// The position of the last pair of `m` whose key is `k`, if any; its value is what the
/// map view holds for `k`.
pub fn assoc_find<V>(m: &[(String, V)], k: &[char]) -> (r: Option<usize>)
    ensures
        r matches Some(j) ==> j < m@.len() && m@[j as int].0@ == k@ && assoc_view(m@).contains_key(
            k@,
        ) && assoc_view(m@)[k@] == m@[j as int].1 && forall|i: int| j < i < m@.len() ==> (#[trigger] m@[i]).0@ != k@,
        r is None ==> !assoc_view(m@).contains_key(k@),
{
    let mut i = m.len();
    while i > 0
        invariant
            i <= m@.len(),
            forall|j: int| i <= j < m@.len() ==> (#[trigger] m@[j]).0@ != k@,
        decreases i,
    {
        let key = chars_of(m[i - 1].0.as_str());
        if chars_eq(&key, k) {
            proof {
                lemma_assoc_tail_irrelevant(m@, i as int, k@);
                let t = m@.take(i as int);
                assert(t.last() == m@[i - 1]);
                assert(t.drop_last() =~= m@.take(i - 1));
            }
            return Some(i - 1);
        }
        i = i - 1;
    }
    proof {
        lemma_assoc_tail_irrelevant(m@, 0, k@);
        assert(m@.take(0) =~= Seq::<(String, V)>::empty());
    }
    None
}

/// Looks up the value of `k` in a table of copyable values.
pub fn assoc_get<V: Copy>(m: &[(String, V)], k: &[char]) -> (r: Option<V>)
    ensures
        r == (if assoc_view(m@).contains_key(k@) {
            Some(assoc_view(m@)[k@])
        } else {
            None::<V>
        }),
{
    match assoc_find(m, k) {
        Some(j) => Some(m[j].1),
        None => None,
    }
}

/// Adding a pair to the end of a table overrides the key in its map view.
pub proof fn lemma_assoc_push<V>(m: Seq<(String, V)>, e: (String, V))
    ensures
        assoc_view(m.push(e)) == assoc_view(m).insert(e.0@, e.1),
{
    assert(m.push(e).drop_last() =~= m);
}

/// Every key of a table is a key of its map view.
pub proof fn lemma_assoc_has_key<V>(m: Seq<(String, V)>, k: int)
    requires
        0 <= k < m.len(),
    ensures
        assoc_view(m).contains_key(m[k].0@),
    decreases m.len(),
{
    if k < m.len() - 1 {
        assert(m.drop_last()[k] == m[k]);
        lemma_assoc_has_key(m.drop_last(), k);
    }
}

/// Replacing the value of an existing key of a table without duplicate keys replaces it
/// in the map view.
pub proof fn lemma_assoc_replace<V>(m: Seq<(String, V)>, j: int, e: (String, V))
    requires
        0 <= j < m.len(),
        assoc_keys(m).no_duplicates(),
        m[j].0@ == e.0@,
    ensures
        assoc_view(m.update(j, e)) == assoc_view(m).insert(e.0@, e.1),
        assoc_keys(m.update(j, e)).no_duplicates(),
    decreases m.len(),
{
    let u = m.update(j, e);
    assert(assoc_keys(u) =~= assoc_keys(m));
    if j == m.len() - 1 {
        assert(u.drop_last() =~= m.drop_last());
        assert(assoc_view(u) == assoc_view(m.drop_last()).insert(e.0@, e.1));
        assert(assoc_view(u) =~= assoc_view(m).insert(e.0@, e.1));
    } else {
        let d = m.drop_last();
        assert(assoc_keys(d) =~= assoc_keys(m).drop_last());
        lemma_assoc_replace(d, j, e);
        assert(u.drop_last() =~= d.update(j, e));
        assert(assoc_keys(m)[m.len() - 1] != assoc_keys(m)[j]);
        assert(m.last().0@ != e.0@);
        assert(assoc_view(u) =~= assoc_view(m).insert(e.0@, e.1));
    }
}

/// Removing the pair at `j` from a table without duplicate keys removes its key from the
/// map view.
pub proof fn lemma_assoc_remove<V>(m: Seq<(String, V)>, j: int)
    requires
        0 <= j < m.len(),
        assoc_keys(m).no_duplicates(),
    ensures
        assoc_view(m.remove(j)) == assoc_view(m).remove(m[j].0@),
        assoc_keys(m.remove(j)).no_duplicates(),
    decreases m.len(),
{
    let u = m.remove(j);
    assert(assoc_keys(u) =~= assoc_keys(m).remove(j));
    assert forall|a: int, b: int| 0 <= a < assoc_keys(u).len() && 0 <= b < assoc_keys(u).len() && a != b implies assoc_keys(u)[a] != assoc_keys(u)[b] by {
        let ia = if a < j { a } else { a + 1 };
        let ib = if b < j { b } else { b + 1 };
        assert(assoc_keys(u)[a] == assoc_keys(m)[ia]);
        assert(assoc_keys(u)[b] == assoc_keys(m)[ib]);
    }
    if j == m.len() - 1 {
        assert(u =~= m.drop_last());
        assert forall|i: int| 0 <= i < u.len() implies (#[trigger] u[i]).0@ != m[j].0@ by {
            assert(assoc_keys(m)[i] != assoc_keys(m)[j]);
        }
        lemma_assoc_tail_irrelevant(u, u.len() as int, m[j].0@);
        lemma_not_key(u, m[j].0@);
        assert(assoc_view(u) =~= assoc_view(m).remove(m[j].0@));
    } else {
        let d = m.drop_last();
        assert(assoc_keys(d) =~= assoc_keys(m).drop_last());
        lemma_assoc_remove(d, j);
        assert(u.drop_last() =~= d.remove(j));
        assert(u.last() == m.last());
        assert(assoc_keys(m)[m.len() - 1] != assoc_keys(m)[j]);
        assert(assoc_view(u) =~= assoc_view(m).remove(m[j].0@));
    }
}

/// A key that no pair has is not a key of the map view.
pub proof fn lemma_not_key<V>(m: Seq<(String, V)>, k: Seq<char>)
    requires
        forall|i: int| 0 <= i < m.len() ==> (#[trigger] m[i]).0@ != k,
    ensures
        !assoc_view(m).contains_key(k),
    decreases m.len(),
{
    if m.len() > 0 {
        assert forall|i: int| 0 <= i < m.drop_last().len() implies (#[trigger] m.drop_last()[i]).0@ != k by {
            assert(m.drop_last()[i] == m[i]);
        }
        lemma_not_key(m.drop_last(), k);
        assert(m.last() == m[m.len() - 1]);
    }
}

/// Inserting a pair with a new key anywhere in a table adds the key to its map view.
pub proof fn lemma_assoc_insert_at<V>(m: Seq<(String, V)>, p: int, e: (String, V))
    requires
        0 <= p <= m.len(),
        !assoc_view(m).contains_key(e.0@),
    ensures
        assoc_view(m.insert(p, e)) == assoc_view(m).insert(e.0@, e.1),
    decreases m.len(),
{
    if p == m.len() {
        assert(m.insert(p, e) =~= m.push(e));
        lemma_assoc_push(m, e);
    } else {
        let d = m.drop_last();
        assert(m.insert(p, e).drop_last() =~= d.insert(p, e));
        assert(m.insert(p, e).last() == m.last());
        if assoc_view(d).contains_key(e.0@) {
            assert(assoc_view(m).contains_key(e.0@));
        }
        lemma_assoc_insert_at(d, p, e);
        assert(m.last().0@ != e.0@);
        assert(assoc_view(m.insert(p, e)) =~= assoc_view(m).insert(e.0@, e.1));
    }
}

} // verus!
