//! Fully qualified service names: `source:service`.

use vstd::prelude::*;
use crate::text::{chars_of, slice_chars, string_of};

verus! {

/// The position of the first `c` in `s`.
pub open spec fn first_index(s: Seq<char>, c: char) -> Option<int> {
    if exists|i: int| 0 <= i < s.len() && s[i] == c {
        Some(choose|i: int| 0 <= i < s.len() && s[i] == c && forall|j: int| 0 <= j < i ==> s[j] != c)
    } else {
        None
    }
}

/// The parts of a name before and after its first `:`, if it has one.
pub open spec fn fqn_parts(s: Seq<char>) -> Option<(Seq<char>, Seq<char>)> {
    match first_index(s, ':') {
        Some(i) => Some((s.take(i), s.skip(i + 1))),
        None => None,
    }
}

/// Splits a name at its first `:`.
pub fn split_fqn(fqn: &str) -> (r: Option<(String, String)>)
    ensures
        match r {
            Some((a, b)) => fqn_parts(fqn@) == Some((a@, b@)),
            None => fqn_parts(fqn@) is None,
        },
{
    let c = chars_of(fqn);
    let mut i: usize = 0;
    while i < c.len()
        invariant
            i <= c@.len(),
            c@ == fqn@,
            forall|j: int| 0 <= j < i ==> c@[j] != ':',
        decreases c.len() - i,
    {
        if c[i] == ':' {
            proof {
                assert(exists|k: int| 0 <= k < c@.len() && c@[k] == ':');
                let k = choose|k: int| 0 <= k < fqn@.len() && fqn@[k] == ':' && forall|j: int| 0 <= j < k ==> fqn@[j] != ':';
                if k < i {
                } else if k > i {
                    assert(fqn@[i as int] == ':');
                }
                assert(k == i);
            }
            let a = string_of(&slice_chars(&c, 0, i));
            let b = string_of(&slice_chars(&c, i + 1, c.len()));
            assert(c@.subrange(0, i as int) =~= fqn@.take(i as int));
            assert(c@.subrange(i + 1, c@.len() as int) =~= fqn@.skip(i + 1));
            return Some((a, b));
        }
        i = i + 1;
    }
    None
}

} // verus!
