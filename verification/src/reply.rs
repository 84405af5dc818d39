//! What goes back to the HTTP client.

use crate::error::AppError;
use vstd::prelude::*;

verus! {

/// Status of a reply that carries the books.
pub const STATUS_OK: u16 = 200;

/// Status of every failed request.
pub const STATUS_INTERNAL_SERVER_ERROR: u16 = 500;

/// Content type of a reply that carries the books.
pub const JSON_CONTENT_TYPE: &'static str = "application/json";

/// An HTTP response, reduced to what this service decides about it.
#[derive(Debug, PartialEq, Eq)]
pub struct Reply {
    pub status: u16,
    /// The `Content-Type` header, where the reply has a body.
    pub content_type: Option<&'static str>,
    pub body: String,
}

/// What a `Reply` means.
pub struct ReplyView {
    pub status: int,
    pub content_type: Option<Seq<char>>,
    pub body: Seq<char>,
}

impl View for Reply {
    type V = ReplyView;

    open spec fn view(&self) -> ReplyView {
        ReplyView {
            status: self.status as int,
            content_type: match self.content_type {
                Some(name) => Some(name@),
                None => None,
            },
            body: self.body@,
        }
    }
}

/// The reply to a request that succeeded: 200, `application/json`, and the
/// given JSON text as the body.
pub open spec fn json_reply(body: Seq<char>) -> ReplyView {
    ReplyView { status: 200, content_type: Some(JSON_CONTENT_TYPE@), body }
}

/// The reply to a request that failed, for whatever reason: 500 and no body,
/// so nothing that a client could take for a list of books.
pub open spec fn failure_reply() -> ReplyView {
    ReplyView { status: 500, content_type: None, body: Seq::empty() }
}

impl Reply {
    /// The reply that carries `body`, a JSON text.
    pub fn json(body: String) -> (reply: Reply)
        ensures
            reply@ == json_reply(body@),
    {
        Reply { status: STATUS_OK, content_type: Some(JSON_CONTENT_TYPE), body }
    }

    /// The reply to a failed request.
    pub fn failure() -> (reply: Reply)
        ensures
            reply@ == failure_reply(),
    {
        Reply { status: STATUS_INTERNAL_SERVER_ERROR, content_type: None, body: String::new() }
    }
}

impl AppError {
    /// The reply that a client gets for this error. Both kinds give the same
    /// one: the client learns that the request failed and nothing more.
    pub fn to_reply(&self) -> (reply: Reply)
        ensures
            reply@ == failure_reply(),
    {
        match self {
            AppError::PoolError(_) => Reply::failure(),
            AppError::PgError(_) => Reply::failure(),
        }
    }
}

} // verus!
