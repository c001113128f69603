//! Images, served from files by their path.

use crate::outside::mime::mime_of_path;
use crate::outside::mime::type_of_path;
use crate::outside::percent::decode_path;
use crate::outside::percent::percent_decoded;
use crate::text::same_text;
use crate::text::text_bytes;
use crate::uri_scheme::Reply;
use crate::uri_scheme::typed;
use vstd::prelude::*;
use vstd::slice::slice_to_vec;

verus! {

/// The path of a request as text, with its percent-encoding undone.
pub fn request_path(raw: &[u8]) -> (path: String)
    ensures
        path@ == percent_decoded(raw@),
{
    decode_path(raw)
}

/// The answer that reports a failure in plain words, with status 500.
pub fn error_to_bytes_resp(text: &str) -> (reply: Reply)
    ensures
        reply.status == 500,
        !reply.any_origin,
        typed(reply, "text"@),
        reply.body@ == text_bytes(text@),
{
    Reply {
        status: 500,
        any_origin: false,
        content_type: Some("text".to_owned()),
        body: slice_to_vec(text.as_bytes()),
    }
}

/// How a request for an image names the image.
#[derive(Clone, Copy, Debug, PartialEq, Eq, Structural)]
pub enum QueryImageType {
    /// By the path of a file.
    File,
    /// By the identity of a stored attachment.
    Id,
}

/// The kind that a query asks for: `type=file` or `type=id`, to the letter.
pub open spec fn query_kind(query: Option<&str>) -> Option<QueryImageType> {
    match query {
        Some(q) => if q@ == "type=file"@ {
            Some(QueryImageType::File)
        } else if q@ == "type=id"@ {
            Some(QueryImageType::Id)
        } else {
            None
        },
        None => None,
    }
}

/// Reads from the query of a request how it names the image. A request
/// without a query, or with another, names none.
pub fn query_type(query: Option<&str>) -> (r: Option<QueryImageType>)
    ensures
        r == query_kind(query),
{
    match query {
        Some(q) => if same_text(q, "type=file") {
            Some(QueryImageType::File)
        } else if same_text(q, "type=id") {
            Some(QueryImageType::Id)
        } else {
            None
        },
        None => None,
    }
}

/// The media type under which an image file is served: the first that is
/// known for its file name, and `image/jpeg` where none is.
pub open spec fn image_type_spec(path: Seq<char>) -> Seq<char> {
    match mime_of_path(path) {
        Some(t) => t,
        None => "image/jpeg"@,
    }
}

/// The media type under which an image file is served.
pub fn image_type(path: &str) -> (r: &'static str)
    ensures
        r@ == image_type_spec(path@),
{
    match type_of_path(path) {
        Some(t) => t,
        None => "image/jpeg",
    }
}

/// The answer to a request for an image that was read from a file.
pub fn image_resp(path: &str, file: Vec<u8>) -> (reply: Reply)
    ensures
        reply.status == 200,
        !reply.any_origin,
        typed(reply, image_type_spec(path@)),
        reply.body@ == file@,
{
    Reply {
        status: 200,
        any_origin: false,
        content_type: Some(image_type(path).to_owned()),
        body: file,
    }
}

/// The answer to a request that names no image: status 404, nothing else.
pub fn no_image() -> (reply: Reply)
    ensures
        reply.status == 404,
        !reply.any_origin,
        reply.content_type is None,
        reply.body@.len() == 0,
{
    Reply { status: 404, any_origin: false, content_type: None, body: Vec::new() }
}

} // verus!
