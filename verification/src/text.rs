//! Text decoding for the text-like meta events.

use vstd::prelude::*;

verus! {

/// The text that lossy UTF-8 decoding yields for a byte sequence: a function
/// of the bytes alone, left uninterpreted.
pub uninterp spec fn utf8_lossy_of(bytes: Seq<u8>) -> Seq<char>;

/// Relies on `String::from_utf8_lossy` of std: decodes the bytes as UTF-8,
/// replacing invalid sequences with the replacement character rather than
/// failing; the result depends on the bytes alone.
#[verifier::external_body]
pub(crate) fn utf8_lossy(data: &Vec<u8>) -> (r: String)
    ensures
        r@ == utf8_lossy_of(data@),
{
    String::from_utf8_lossy(data).into_owned()
}

} // verus!
