//! The interface between the parsing core and the application that answers
//! requests.
use vstd::prelude::*;

use crate::http::request::ParseError;
use crate::http::request::Request;
use crate::http::response::Response;
use crate::http::response::ResponseView;
use crate::http::status_code::StatusCode;

verus! {

/// The plain answer to a buffer that is no request: the status `BadRequest`
/// and no body.
pub open spec fn plain_bad_request() -> ResponseView {
    ResponseView { status_code: StatusCode::BadRequest, body: None }
}

/// What answers requests. A buffer that was read as a request is handed to
/// `handle_request`, the error of one that was not to `handle_bad_request`.
///
/// What a handler answers to a request is its own affair. To a bad request
/// it gives the plain answer, unless it says that it has one of its own.
pub trait Handler {
    /// Whether this handler leaves `handle_bad_request` as it is given here.
    /// A handler that gives the method a body of its own, and answers
    /// otherwise, says `false`.
    open spec fn answers_bad_requests_plainly() -> bool {
        true
    }

    /// The response to a request.
    fn handle_request(&mut self, request: &Request) -> Response;

    /// The response to a buffer that is no request: whatever the error, the
    /// plain answer of [`bad_request`]. A handler that answers otherwise
    /// says so in `answers_bad_requests_plainly`.
    fn handle_bad_request(&mut self, e: &ParseError) -> (r: Response)
        ensures
            Self::answers_bad_requests_plainly() ==> r@ == plain_bad_request(),
    {
        bad_request()
    }
}

/// The response to a buffer that is no request, whatever the error: the
/// status `BadRequest` and no body.
pub fn bad_request() -> (r: Response)
    ensures
        r@ == plain_bad_request(),
{
    Response::new(StatusCode::BadRequest, None)
}

} // verus!
