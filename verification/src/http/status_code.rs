//! The status of a response.
use vstd::prelude::*;

verus! {

/// The status codes that this server answers with.
#[derive(Debug, Clone, Copy, PartialEq, Eq, Structural)]
pub enum StatusCode {
    /// 200
    OK,
    /// 400
    BadRequest,
    /// 404
    NotFound,
}

impl StatusCode {
    /// The number of this status.
    pub open spec fn spec_code(&self) -> u16 {
        match self {
            StatusCode::OK => 200,
            StatusCode::BadRequest => 400,
            StatusCode::NotFound => 404,
        }
    }

    /// The number of this status, as it is written on the wire.
    #[verifier::when_used_as_spec(spec_code)]
    pub fn code(&self) -> (n: u16)
        ensures
            n == self.spec_code(),
    {
        match self {
            StatusCode::OK => 200,
            StatusCode::BadRequest => 400,
            StatusCode::NotFound => 404,
        }
    }

    /// The reason phrase of this status.
    pub open spec fn spec_reason_phrase(&self) -> &'static str {
        match self {
            StatusCode::OK => "Ok",
            StatusCode::BadRequest => "Bad Request",
            StatusCode::NotFound => "Not Found",
        }
    }

    /// The reason phrase that follows the number in a status line.
    #[verifier::when_used_as_spec(spec_reason_phrase)]
    pub fn reason_phrase(&self) -> (r: &'static str)
        ensures
            r == self.spec_reason_phrase(),
    {
        match self {
            StatusCode::OK => "Ok",
            StatusCode::BadRequest => "Bad Request",
            StatusCode::NotFound => "Not Found",
        }
    }
}

} // verus!
