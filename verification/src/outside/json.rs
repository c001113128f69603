//! JSON, as far as the store needs it: whether bytes are a JSON text, and how
//! a string is written as one. Both are `serde_json`'s doing and are stated
//! here, not proved.

use vstd::prelude::*;

verus! {

/// Whether `serde_json` reads the bytes as one JSON value.
pub uninterp spec fn json_valid(text: Seq<u8>) -> bool;

/// A text as `serde_json` writes it: between double quotes, with escapes.
pub uninterp spec fn json_quoted(text: Seq<char>) -> Seq<char>;

/// `serde_json::from_slice` into a `serde_json::Value`: whether the bytes
/// parse.
#[verifier::external_body]
pub(crate) fn is_json(text: &[u8]) -> (ok: bool)
    ensures
        ok == json_valid(text@),
{
    serde_json::from_slice::<serde_json::Value>(text).is_ok()
}

/// `serde_json::to_string` of a string slice. The call fails only where a
/// value refuses to be written or a map has keys that are no strings; neither
/// can be said of a string.
#[verifier::external_body]
pub(crate) fn json_quote(text: &str) -> (quoted: String)
    ensures
        quoted@ == json_quoted(text@),
{
    serde_json::to_string(text).unwrap_or_default()
}

} // verus!
