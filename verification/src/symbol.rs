//! Canonical symbol form. Feeds and subscriptions are keyed by the uppercase
//! ticker; every comparison and every piece of stored state uses this form.
use vstd::prelude::*;

verus! {

/// The uppercase equivalent of a character sequence, as `str::to_uppercase`
/// computes it.
pub uninterp spec fn upper_of(s: Seq<char>) -> Seq<char>;

/// Relies on str::to_uppercase: the Unicode uppercase equivalent of the
/// string; the result depends on the characters alone, and an empty string
/// stays empty.
#[verifier::external_body]
pub(crate) fn canonical(s: &str) -> (r: String)
    ensures
        r@ == upper_of(s@),
        s@.len() == 0 ==> r@.len() == 0,
{
    s.to_uppercase()
}

} // verus!
