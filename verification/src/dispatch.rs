//! The decision the HTTP layer asks of the library: whether an incoming
//! request becomes a GraphQL execution (answered with HTTP status 200,
//! whatever the execution's outcome) or is rejected as malformed
//! (answered with HTTP status 400 and never executed).

use vstd::prelude::*;
use vstd::slice::slice_to_vec;
use vstd::utf8::decode_utf8;
use vstd::utf8::valid_utf8;

use crate::request::BadRequest;
use crate::request::GraphQlRequest;
use crate::request::RequestModel;
use crate::urlquery::param_raw;
use crate::urlquery::parse_query_string;
use crate::urlquery::parsed_query_string;
use crate::urlquery::qs_segments;
use crate::urlquery::query_key;
use crate::urlquery::string_from_utf8;

verus! {

/// The largest request body, in bytes, that the POST entry point accepts.
pub const MAX_BODY_BYTES: usize = 1048576;

/// The HTTP status code of a well-formed request.
pub const STATUS_OK: u16 = 200;

/// The HTTP status code of a malformed request.
pub const STATUS_BAD_REQUEST: u16 = 400;

/// What is to be done with an incoming request: execute the operation it
/// carries, or reject it without touching GraphQL execution.
pub enum Dispatch {
    /// Execute the operation against the schema and answer with status
    /// 200, whether or not execution reports GraphQL errors.
    Execute(GraphQlRequest),
    /// Answer with status 400; the request never reaches execution.
    Reject(BadRequest),
}

/// Decides a GET request from the raw bytes of its URL query string:
/// execute exactly the operation request the query string stands for, or
/// reject with the first transport error that makes it unreadable.
pub fn dispatch_get(raw_query: &[u8]) -> (d: Dispatch)
    ensures
        match parsed_query_string(raw_query@) {
            Result::Ok(m) => d matches Dispatch::Execute(req) && req@ == m,
            Result::Err(e) => d matches Dispatch::Reject(b) && b == e,
        },
{
    match parse_query_string(raw_query) {
        Result::Ok(req) => Dispatch::Execute(req),
        Result::Err(e) => Dispatch::Reject(e),
    }
}

/// Decides a POST request from its body length and the outcome of reading
/// its body as a JSON operation request: an oversized body and an
/// unreadable body are rejected, everything else is executed unchanged.
pub fn dispatch_post(body_len: usize, parsed: Option<GraphQlRequest>) -> (d: Dispatch)
    ensures
        body_len > MAX_BODY_BYTES ==> (d matches Dispatch::Reject(b) && b
            == BadRequest::BodyTooLarge),
        body_len <= MAX_BODY_BYTES ==> match parsed {
            Option::Some(req) => d matches Dispatch::Execute(r) && r == req,
            Option::None => d matches Dispatch::Reject(b) && b == BadRequest::InvalidJson,
        },
{
    if body_len > MAX_BODY_BYTES {
        Dispatch::Reject(BadRequest::BodyTooLarge)
    } else {
        match parsed {
            Option::Some(req) => Dispatch::Execute(req),
            Option::None => Dispatch::Reject(BadRequest::InvalidJson),
        }
    }
}

/// Decides a POST request whose content type signals a raw GraphQL
/// document: the whole body, read as UTF-8, is the query document, with
/// no operation name and no variables. An oversized body and one that is
/// not valid UTF-8 are rejected.
pub fn dispatch_post_raw(body: &[u8]) -> (d: Dispatch)
    ensures
        body@.len() > MAX_BODY_BYTES ==> (d matches Dispatch::Reject(b) && b
            == BadRequest::BodyTooLarge),
        body@.len() <= MAX_BODY_BYTES ==> {
            if valid_utf8(body@) {
                d matches Dispatch::Execute(req) && req@ == (RequestModel {
                    query: decode_utf8(body@),
                    operation_name: Option::None,
                    variables: Option::None,
                })
            } else {
                d matches Dispatch::Reject(b) && b == BadRequest::InvalidUtf8
            }
        },
{
    if body.len() > MAX_BODY_BYTES {
        return Dispatch::Reject(BadRequest::BodyTooLarge);
    }
    let bytes = slice_to_vec(body);
    match string_from_utf8(bytes) {
        Option::Some(s) => Dispatch::Execute(
            GraphQlRequest { query: s, operation_name: Option::None, variables: Option::None },
        ),
        Option::None => Dispatch::Reject(BadRequest::InvalidUtf8),
    }
}

/// The HTTP status a decision is answered with: 200 for an executed
/// operation, 400 for a rejected request.
pub fn status_code(d: &Dispatch) -> (s: u16)
    ensures
        (d matches Dispatch::Execute(_)) ==> s == STATUS_OK,
        (d matches Dispatch::Reject(_)) ==> s == STATUS_BAD_REQUEST,
{
    match d {
        Dispatch::Execute(_) => STATUS_OK,
        Dispatch::Reject(_) => STATUS_BAD_REQUEST,
    }
}

/// A query string with no `query` parameter is always rejected as a
/// missing-query transport error, whatever else it holds; it is never
/// executed.
pub proof fn lemma_missing_query_rejected(qs: Seq<u8>)
    requires
        param_raw(qs_segments(qs), query_key()) is None,
    ensures
        parsed_query_string(qs) == Result::Err::<RequestModel, BadRequest>(
            BadRequest::MissingQuery,
        ),
{
}

} // verus!
