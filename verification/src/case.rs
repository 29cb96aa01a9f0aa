//! Unicode case mapping of strings, as std performs it.

use vstd::prelude::*;

verus! {

/// What `str::to_lowercase` gives for a string: each character mapped to its Unicode
/// lowercase form.
pub uninterp spec fn lowercase(s: Seq<char>) -> Seq<char>;

/// `str::to_lowercase`: the string with every character replaced by its Unicode
/// lowercase mapping. The result is only named (`lowercase`), not described.
#[verifier::external_body]
pub(crate) fn to_lowercase(s: &str) -> (r: String)
    ensures
        r@ == lowercase(s@),
{
    s.to_lowercase()
}

/// What `str::to_uppercase` gives for a string: each character mapped to its Unicode
/// uppercase form.
pub uninterp spec fn uppercase(s: Seq<char>) -> Seq<char>;

/// `str::to_uppercase`: the string with every character replaced by its Unicode
/// uppercase mapping. The result is only named (`uppercase`), not described.
#[verifier::external_body]
pub(crate) fn to_uppercase(s: &str) -> (r: String)
    ensures
        r@ == uppercase(s@),
{
    s.to_uppercase()
}

} // verus!
