//! Payloads that come embedded in a `data:` URL, decoded by the `data-url`
//! crate. Stated here, not proved.

use vstd::prelude::*;

verus! {

/// The body that a `data:` URL decodes to; `None` where the text is no such
/// URL or its body is malformed.
pub uninterp spec fn data_url_body(url: Seq<char>) -> Option<Seq<u8>>;

/// `DataUrl::process`, then `DataUrl::decode_to_vec`: the decoded body, without
/// the fragment.
#[verifier::external_body]
pub(crate) fn decode_data_url(url: &str) -> (r: Option<Vec<u8>>)
    ensures
        r is Some <==> data_url_body(url@) is Some,
        r matches Some(body) ==> data_url_body(url@) == Some(body@),
{
    let parsed = data_url::DataUrl::process(url).ok()?;
    let (body, _) = parsed.decode_to_vec().ok()?;
    Some(body)
}

} // verus!
