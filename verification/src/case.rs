//! Text conversions of the standard library whose results are named rather
//! than restated: Unicode lowercasing and lossy UTF-8 decoding.
use vstd::prelude::*;

verus! {

/// The full Unicode lowercase mapping of a text (`str::to_lowercase`).
pub uninterp spec fn unicode_lower(s: Seq<char>) -> Seq<char>;

/// `str::to_lowercase`: the Unicode lowercase mapping of `s`. The mapping
/// itself (the Unicode `Lowercase` property and special casing) is not
/// restated here; the result is named by `unicode_lower`.
#[verifier::external_body]
pub(crate) fn lowercase(s: &str) -> (r: String)
    ensures
        r@ == unicode_lower(s@),
{
    s.to_lowercase()
}

/// The text `String::from_utf8_lossy` decodes from `bytes`.
pub uninterp spec fn utf8_lossy(bytes: Seq<u8>) -> Seq<char>;

/// `String::from_utf8_lossy`: `bytes` decoded as UTF-8, each invalid
/// sequence replaced by U+FFFD. The decoding is not restated here; the result
/// is named by `utf8_lossy`.
#[verifier::external_body]
pub(crate) fn decode_utf8_lossy(bytes: &[u8]) -> (r: String)
    ensures
        r@ == utf8_lossy(bytes@),
{
    String::from_utf8_lossy(bytes).into_owned()
}

} // verus!
