//! Error replies, and what a failing storage is answered with.

use vstd::prelude::*;

verus! {

/// A reply without a body that tells the client why a request failed.
#[derive(Clone, Copy, Debug, PartialEq, Eq, Structural)]
pub enum ErrorReply {
    /// The request itself is malformed or asks for too much.
    BadRequest,
    /// What the request names does not exist.
    NotFound,
    /// No connection to the storage could be had.
    RequestTimeout,
    /// A query failed.
    InternalServerError,
}

impl ErrorReply {
    /// The HTTP status code of a reply.
    pub open spec fn code(self) -> u16 {
        match self {
            ErrorReply::BadRequest => 400,
            ErrorReply::NotFound => 404,
            ErrorReply::RequestTimeout => 408,
            ErrorReply::InternalServerError => 500,
        }
    }

    /// Returns the HTTP status code of this reply.
    pub fn status_code(self) -> (code: u16)
        ensures
            code == self.code(),
    {
        match self {
            ErrorReply::BadRequest => 400,
            ErrorReply::NotFound => 404,
            ErrorReply::RequestTimeout => 408,
            ErrorReply::InternalServerError => 500,
        }
    }
}

/// The outcome of a step that passes its value on and turns each failure into
/// the same reply.
pub open spec fn or_reply<T, E>(outcome: Result<T, E>, reply: ErrorReply) -> Result<T, ErrorReply> {
    match outcome {
        Ok(value) => Ok(value),
        Err(_) => Err(reply),
    }
}

/// Hands a storage connection on. A request for which none could be had times
/// out.
pub fn access_storage<S, E>(connection: Result<S, E>) -> (reply: Result<S, ErrorReply>)
    ensures
        reply == or_reply(connection, ErrorReply::RequestTimeout),
{
    match connection {
        Ok(storage) => Ok(storage),
        Err(_) => Err(ErrorReply::RequestTimeout),
    }
}

/// Hands the result of a query on. A request whose query failed ends in an
/// internal error.
pub fn query_result<T, E>(outcome: Result<T, E>) -> (reply: Result<T, ErrorReply>)
    ensures
        reply == or_reply(outcome, ErrorReply::InternalServerError),
{
    match outcome {
        Ok(value) => Ok(value),
        Err(_) => Err(ErrorReply::InternalServerError),
    }
}

/// Different kinds of error reply carry different status codes, and each
/// code is one of the client errors or server errors of HTTP.
pub proof fn law_codes_tell_replies_apart(a: ErrorReply, b: ErrorReply)
    ensures
        a.code() == b.code() ==> a == b,
        400 <= a.code() < 600,
{
}

/// A client learns from the status code what went wrong: its own request (400),
/// what it names (404), no storage in time (408), or a failure of the server
/// (500).
pub proof fn law_codes_say_what_went_wrong(reply: ErrorReply, code: u16)
    requires
        call_ensures(ErrorReply::status_code, (reply,), code),
    ensures
        code == reply.code(),
        code == 400 <==> reply == ErrorReply::BadRequest,
        code == 404 <==> reply == ErrorReply::NotFound,
        code == 408 <==> reply == ErrorReply::RequestTimeout,
        code == 500 <==> reply == ErrorReply::InternalServerError,
{
}

/// What succeeded is passed on as it is, and nothing that failed looks like a
/// success.
pub proof fn law_success_is_passed_on<T, E>(outcome: Result<T, E>, reply: ErrorReply)
    ensures
        outcome is Ok <==> or_reply(outcome, reply) is Ok,
        outcome matches Ok(value) ==> or_reply(outcome, reply)->Ok_0 == value,
        outcome is Err ==> or_reply(outcome, reply)->Err_0 == reply,
{
}

} // verus!
