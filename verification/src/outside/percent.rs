//! Percent-decoding of request paths, done by the `percent-encoding` crate.
//! Stated here, not proved.

use vstd::prelude::*;

verus! {

/// The text that a percent-encoded path stands for: every `%` with two
/// hexadecimal digits behind it gives one byte, and what is no UTF-8 among
/// the bytes gives the replacement character.
pub uninterp spec fn percent_decoded(raw: Seq<u8>) -> Seq<char>;

/// `percent_encoding::percent_decode`, then `decode_utf8_lossy`.
#[verifier::external_body]
pub(crate) fn decode_path(raw: &[u8]) -> (text: String)
    ensures
        text@ == percent_decoded(raw@),
{
    percent_encoding::percent_decode(raw).decode_utf8_lossy().into_owned()
}

} // verus!
