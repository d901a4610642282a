//! Unicode case mapping of text, done by the standard library.
use vstd::prelude::*;

verus! {

/// What `str::to_lowercase` returns for a text: its Unicode lowercase mapping (character
/// by character, but for a capital sigma, which becomes a final sigma at the end of a word).
pub uninterp spec fn lowercase(s: Seq<char>) -> Seq<char>;

/// What `str::to_uppercase` returns for a text: the Unicode uppercase mapping of each
/// character (one character may become several), concatenated.
pub uninterp spec fn uppercase(s: Seq<char>) -> Seq<char>;

/// Calls `str::to_lowercase`. Its result is named, not stated: the Unicode case tables
/// that decide it are not written out here.
#[verifier::external_body]
pub(crate) fn to_lowercase(s: &str) -> (r: String)
    ensures
        r@ == lowercase(s@),
{
    s.to_lowercase()
}

/// Calls `str::to_uppercase`. Its result is named, not stated: the Unicode case tables
/// that decide it are not written out here.
#[verifier::external_body]
pub(crate) fn to_uppercase(s: &str) -> (r: String)
    ensures
        r@ == uppercase(s@),
{
    s.to_uppercase()
}

} // verus!
