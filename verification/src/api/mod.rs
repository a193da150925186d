//! What the REST API answers.
//!
//! Every handler here is a function from the request and the state that it
//! reads to the status and the body of the answer.

pub mod auth;
pub mod backup;
pub mod config;
pub mod failover;
pub mod forward;
pub mod laws;
pub mod maintenance;
pub mod nodes;
pub mod pg_hba;
pub mod replication;
pub mod status;
pub mod switchover;

use vstd::prelude::*;

verus! {

/// HTTP status: the request succeeded.
pub const OK: u16 = 200;

/// HTTP status: the request made something new.
pub const CREATED: u16 = 201;

/// HTTP status: the request goes on in the background.
pub const ACCEPTED: u16 = 202;

/// HTTP status: the request succeeded, and there is nothing to say of it.
pub const NO_CONTENT: u16 = 204;

/// HTTP status: the request succeeded in part.
pub const MULTI_STATUS: u16 = 207;

/// HTTP status: the request cannot be served as it is.
pub const BAD_REQUEST: u16 = 400;

/// HTTP status: the request lacks a valid key.
pub const UNAUTHORIZED: u16 = 401;

/// HTTP status: the request names something unknown.
pub const NOT_FOUND: u16 = 404;

/// HTTP status: another operation is in the way.
pub const CONFLICT: u16 = 409;

/// HTTP status: something failed while the request was served.
pub const INTERNAL_SERVER_ERROR: u16 = 500;

/// HTTP status: the request cannot be served now.
pub const SERVICE_UNAVAILABLE: u16 = 503;

/// An answer that is a status and a line of text.
#[derive(Debug)]
pub struct ErrorReply {
    pub status: u16,
    pub message: String,
}

impl View for ErrorReply {
    type V = (u16, Seq<char>);

    open spec fn view(&self) -> (u16, Seq<char>) {
        (self.status, self.message@)
    }
}

/// What is answered when a change of the topology was written, or failed to be
/// with the given error: `done`, or status 500 and the error.
pub fn on_written(done: u16, failure: Option<String>) -> (r: Result<u16, ErrorReply>)
    ensures
        match failure {
            None => r == Ok::<u16, ErrorReply>(done),
            Some(e) => r matches Err(reply) && reply@ == (INTERNAL_SERVER_ERROR, e@),
        },
{
    match failure {
        None => Ok(done),
        Some(message) => Err(ErrorReply { status: INTERNAL_SERVER_ERROR, message }),
    }
}

} // verus!
