//! Lowercasing of text, as std's `str::to_lowercase` performs it.

use vstd::prelude::*;

verus! {

/// What `str::to_lowercase` returns for a text: its lowercase equivalent under
/// the Unicode `Lowercase` property, which depends on the text alone.
pub uninterp spec fn lowercase_of(s: Seq<char>) -> Seq<char>;

/// Calls `str::to_lowercase`. The contract claims only that the result is the
/// one determined by the text (`lowercase_of`); which characters change is
/// left unsaid, as it takes the Unicode tables to state.
#[verifier::external_body]
pub(crate) fn to_lowercase(s: &str) -> (r: String)
    ensures
        r@ == lowercase_of(s@),
{
    s.to_lowercase()
}

} // verus!
