//! The outcome of a service's health checks: one slot per check, holding whether the
//! check passed the last time it ran.

use vstd::prelude::*;

verus! {

/// The number of `true` entries of `s`.
pub open spec fn count_true(s: Seq<bool>) -> nat
    decreases s.len(),
{
    if s.len() == 0 {
        0
    } else {
        count_true(s.drop_last()) + if s.last() { 1nat } else { 0nat }
    }
}

/// One result slot per health check.
#[derive(Debug)]
pub struct HealthStatus {
    pub results: Vec<bool>,
    pub total: usize,
}

impl HealthStatus {
    /// One slot per check, and as many slots as checks.
    pub open spec fn wf(&self) -> bool {
        self.results@.len() == self.total
    }

    /// `total` checks, none passed yet.
    pub fn new(total: usize) -> (r: Self)
        ensures
            r.wf(),
            r.total == total,
            forall|i: int| 0 <= i < total ==> !(#[trigger] r.results@[i]),
    {
        let mut results: Vec<bool> = Vec::new();
        let mut i: usize = 0;
        while i < total
            invariant
                i <= total,
                results@.len() == i,
                forall|j: int| 0 <= j < i ==> !(#[trigger] results@[j]),
            decreases total - i,
        {
            results.push(false);
            i = i + 1;
        }
        HealthStatus { results, total }
    }

    /// Stores the latest result of check `slot`; returns the one it replaces.
    pub fn record(&mut self, slot: usize, passed: bool) -> (was: bool)
        requires
            slot < old(self).results@.len(),
        ensures
            was == old(self).results@[slot as int],
            final(self).results@ == old(self).results@.update(slot as int, passed),
            final(self).total == old(self).total,
    {
        let was = self.results[slot];
        self.results.set(slot, passed);
        was
    }

    /// How many checks passed the last time they ran.
    pub fn healthy_count(&self) -> (r: usize)
        ensures
            r == count_true(self.results@),
    {
        let mut n: usize = 0;
        let mut i: usize = 0;
        while i < self.results.len()
            invariant
                i <= self.results@.len(),
                n == count_true(self.results@.take(i as int)),
                n <= i,
            decreases self.results.len() - i,
        {
            assert(self.results@.take(i + 1).drop_last() =~= self.results@.take(i as int));
            if self.results[i] {
                n = n + 1;
            }
            i = i + 1;
        }
        assert(self.results@.take(self.results@.len() as int) =~= self.results@);
        n
    }

    /// Whether every check passed the last time it ran.
    pub fn is_healthy(&self) -> (r: bool)
        ensures
            r == (count_true(self.results@) == self.total),
    {
        self.healthy_count() == self.total
    }
}

/// All slots hold `true` exactly when every check counts as passed.
pub proof fn lemma_all_passed(s: Seq<bool>)
    ensures
        (count_true(s) == s.len()) <==> (forall|i: int| 0 <= i < s.len() ==> #[trigger] s[i]),
    decreases s.len(),
{
    if s.len() > 0 {
        let t = s.drop_last();
        lemma_all_passed(t);
        lemma_count_bounded(t);
        assert forall|i: int| 0 <= i < t.len() implies #[trigger] t[i] == s[i] by {}
        if count_true(s) == s.len() {
            assert(s.last());
            assert(count_true(t) == t.len());
            assert forall|i: int| 0 <= i < s.len() implies #[trigger] s[i] by {
                if i < t.len() {
                    assert(t[i]);
                }
            }
        }
        if forall|i: int| 0 <= i < s.len() ==> #[trigger] s[i] {
            assert forall|i: int| 0 <= i < t.len() implies #[trigger] t[i] by {
                assert(s[i]);
            }
            assert(s[s.len() - 1]);
        }
    }
}

/// At most every entry is `true`.
pub proof fn lemma_count_bounded(s: Seq<bool>)
    ensures
        count_true(s) <= s.len(),
    decreases s.len(),
{
    if s.len() > 0 {
        lemma_count_bounded(s.drop_last());
    }
}

} // verus!
