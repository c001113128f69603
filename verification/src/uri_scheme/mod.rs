//! Answers to the requests of the user interface for resources and images:
//! what each answer says, before the application puts it on the wire.

pub mod image;
pub mod streamdown;

use crate::error::Error;
use crate::text::text_bytes;
use vstd::prelude::*;
use vstd::slice::slice_to_vec;

verus! {

/// An answer: its status, the media type of its body where it names one, and
/// the body. Every answer of `result_to_resp` may be read from any origin.
#[derive(Clone, Debug)]
pub struct Reply {
    /// The HTTP status.
    pub status: u16,
    /// Whether the answer allows access from every origin.
    pub any_origin: bool,
    /// The media type of the body.
    pub content_type: Option<String>,
    /// The body.
    pub body: Vec<u8>,
}

/// Whether an answer names a media type for its body.
pub open spec fn typed(reply: Reply, media_type: Seq<char>) -> bool {
    reply.content_type is Some && reply.content_type->0@ == media_type
}

/// Why a resource could not be served.
#[derive(Clone, Debug)]
pub enum Failure {
    /// There is no such resource.
    NotFound,
    /// Anything else, in plain words.
    Other(String),
}

impl Failure {
    /// The failure that stands for an error of the store.
    pub fn of(e: Error) -> (f: Failure)
        ensures
            e == Error::NotFound ==> f is NotFound,
            e != Error::NotFound ==> f is Other && f->Other_0@ == Error::describe(e),
    {
        match e {
            Error::NotFound => Failure::NotFound,
            other => Failure::Other(other.message().to_owned()),
        }
    }
}

/// Whether an answer is the one that a result calls for: the resource with
/// its media type and status 200; status 404 without a body where there is
/// none; and status 500 with the failure in plain words for everything else.
pub open spec fn answers(result: Result<(String, Vec<u8>), Failure>, reply: Reply) -> bool {
    reply.any_origin && match result {
        Ok((media_type, body)) => reply.status == 200 && typed(reply, media_type@) && reply.body@
            == body@,
        Err(Failure::NotFound) => reply.status == 404 && reply.content_type is None
            && reply.body@.len() == 0,
        Err(Failure::Other(words)) => reply.status == 500 && typed(reply, "text/plain"@)
            && reply.body@ == text_bytes(words@),
    }
}

/// The answer to a request for a bundled resource.
pub fn result_to_resp(result: Result<(String, Vec<u8>), Failure>) -> (reply: Reply)
    ensures
        answers(result, reply),
{
    match result {
        Ok((media_type, body)) => Reply {
            status: 200,
            any_origin: true,
            content_type: Some(media_type),
            body,
        },
        Err(Failure::NotFound) => Reply {
            status: 404,
            any_origin: true,
            content_type: None,
            body: Vec::new(),
        },
        Err(Failure::Other(words)) => Reply {
            status: 500,
            any_origin: true,
            content_type: Some("text/plain".to_owned()),
            body: slice_to_vec(words.as_str().as_bytes()),
        },
    }
}

} // verus!
