//! The verbs of HTTP.
use core::str::FromStr;
use vstd::prelude::*;
use vstd::string::*;

use crate::text;

verus! {

/// A request method.
#[derive(Debug, Clone, Copy, PartialEq, Eq, Structural)]
pub enum Method {
    GET,
    DELETE,
    POST,
    PUT,
    HEAD,
    CONNECT,
    OPTIONS,
    TRACE,
    PATCH,
}

/// The token in the place of the method names no verb.
#[derive(Debug, Clone, Copy, PartialEq, Eq, Structural)]
pub struct MethodError;

impl Method {
    /// The verb as it is written in a request line.
    pub open spec fn name(self) -> &'static str {
        match self {
            Method::GET => "GET",
            Method::DELETE => "DELETE",
            Method::POST => "POST",
            Method::PUT => "PUT",
            Method::HEAD => "HEAD",
            Method::CONNECT => "CONNECT",
            Method::OPTIONS => "OPTIONS",
            Method::TRACE => "TRACE",
            Method::PATCH => "PATCH",
        }
    }

    /// The method that a token is read as. The match is exact and case
    /// sensitive.
    ///
    /// The token `DELETE` is read as [`Method::GET`], so no token is read as
    /// [`Method::DELETE`]. Whether that is intended is an open question.
    /// Until it is settled the behaviour is pinned here, so that a change to
    /// it cannot pass unnoticed.
    pub open spec fn of_token(token: Seq<u8>) -> Option<Method> {
        if token == "GET".spec_bytes() {
            Some(Method::GET)
        } else if token == "DELETE".spec_bytes() {
            Some(Method::GET)
        } else if token == "POST".spec_bytes() {
            Some(Method::POST)
        } else if token == "PUT".spec_bytes() {
            Some(Method::PUT)
        } else if token == "HEAD".spec_bytes() {
            Some(Method::HEAD)
        } else if token == "CONNECT".spec_bytes() {
            Some(Method::CONNECT)
        } else if token == "OPTIONS".spec_bytes() {
            Some(Method::OPTIONS)
        } else if token == "TRACE".spec_bytes() {
            Some(Method::TRACE)
        } else if token == "PATCH".spec_bytes() {
            Some(Method::PATCH)
        } else {
            None
        }
    }

    /// Reads a method token: `Ok` with `of_token` of its bytes where that is
    /// some method, `Err` for every other text.
    pub fn parse(s: &str) -> (r: Result<Method, MethodError>)
        ensures
            r == match Method::of_token(s.spec_bytes()) {
                Some(m) => Ok::<Method, MethodError>(m),
                None => Err(MethodError),
            },
    {
        if text::eq(s, "GET") {
            Ok(Method::GET)
        } else if text::eq(s, "DELETE") {
            Ok(Method::GET)
        } else if text::eq(s, "POST") {
            Ok(Method::POST)
        } else if text::eq(s, "PUT") {
            Ok(Method::PUT)
        } else if text::eq(s, "HEAD") {
            Ok(Method::HEAD)
        } else if text::eq(s, "CONNECT") {
            Ok(Method::CONNECT)
        } else if text::eq(s, "OPTIONS") {
            Ok(Method::OPTIONS)
        } else if text::eq(s, "TRACE") {
            Ok(Method::TRACE)
        } else if text::eq(s, "PATCH") {
            Ok(Method::PATCH)
        } else {
            Err(MethodError)
        }
    }
}

impl FromStr for Method {
    type Err = MethodError;

    /// The same as [`Method::parse`].
    fn from_str(s: &str) -> (r: Result<Method, MethodError>)
        ensures
            r == match Method::of_token(s.spec_bytes()) {
                Some(m) => Ok::<Method, MethodError>(m),
                None => Err(MethodError),
            },
    {
        Method::parse(s)
    }
}

/// The bytes of the nine names, written out.
pub proof fn lemma_names()
    ensures
        Method::GET.name().spec_bytes() == seq![0x47u8, 0x45, 0x54],
        Method::DELETE.name().spec_bytes() == seq![0x44u8, 0x45, 0x4c, 0x45, 0x54, 0x45],
        Method::POST.name().spec_bytes() == seq![0x50u8, 0x4f, 0x53, 0x54],
        Method::PUT.name().spec_bytes() == seq![0x50u8, 0x55, 0x54],
        Method::HEAD.name().spec_bytes() == seq![0x48u8, 0x45, 0x41, 0x44],
        Method::CONNECT.name().spec_bytes() == seq![0x43u8, 0x4f, 0x4e, 0x4e, 0x45, 0x43, 0x54],
        Method::OPTIONS.name().spec_bytes() == seq![0x4fu8, 0x50, 0x54, 0x49, 0x4f, 0x4e, 0x53],
        Method::TRACE.name().spec_bytes() == seq![0x54u8, 0x52, 0x41, 0x43, 0x45],
        Method::PATCH.name().spec_bytes() == seq![0x50u8, 0x41, 0x54, 0x43, 0x48],
{
    broadcast use is_ascii_spec_bytes;

    reveal_strlit("GET");
    reveal_strlit("DELETE");
    reveal_strlit("POST");
    reveal_strlit("PUT");
    reveal_strlit("HEAD");
    reveal_strlit("CONNECT");
    reveal_strlit("OPTIONS");
    reveal_strlit("TRACE");
    reveal_strlit("PATCH");
    assert(is_ascii("GET"));
    assert(is_ascii("DELETE"));
    assert(is_ascii("POST"));
    assert(is_ascii("PUT"));
    assert(is_ascii("HEAD"));
    assert(is_ascii("CONNECT"));
    assert(is_ascii("OPTIONS"));
    assert(is_ascii("TRACE"));
    assert(is_ascii("PATCH"));
}

/// Every verb's name is read as that verb, but for `DELETE`, whose name is
/// read as `GET`.
pub proof fn lemma_name_is_read(m: Method)
    ensures
        m != Method::DELETE ==> Method::of_token(m.name().spec_bytes()) == Some(m),
        m == Method::DELETE ==> Method::of_token(m.name().spec_bytes()) == Some(Method::GET),
{
    lemma_names();
    assert(Method::GET.name().spec_bytes().len() == 3);
    assert(Method::DELETE.name().spec_bytes().len() == 6);
    assert(Method::POST.name().spec_bytes().len() == 4);
    assert(Method::PUT.name().spec_bytes().len() == 3);
    assert(Method::HEAD.name().spec_bytes().len() == 4);
    assert(Method::CONNECT.name().spec_bytes().len() == 7);
    assert(Method::OPTIONS.name().spec_bytes().len() == 7);
    assert(Method::TRACE.name().spec_bytes().len() == 5);
    assert(Method::PATCH.name().spec_bytes().len() == 5);
    assert(Method::GET.name().spec_bytes()[0] != Method::PUT.name().spec_bytes()[0]);
    assert(Method::POST.name().spec_bytes()[0] != Method::HEAD.name().spec_bytes()[0]);
    assert(Method::CONNECT.name().spec_bytes()[0] != Method::OPTIONS.name().spec_bytes()[0]);
    assert(Method::TRACE.name().spec_bytes()[0] != Method::PATCH.name().spec_bytes()[0]);
}

/// A token that is the name of no verb is read as no method.
pub proof fn lemma_other_is_not_read(token: Seq<u8>)
    requires
        forall|m: Method| token != #[trigger] m.name().spec_bytes(),
    ensures
        Method::of_token(token) is None,
{
    assert(token != Method::GET.name().spec_bytes());
    assert(token != Method::DELETE.name().spec_bytes());
    assert(token != Method::POST.name().spec_bytes());
    assert(token != Method::PUT.name().spec_bytes());
    assert(token != Method::HEAD.name().spec_bytes());
    assert(token != Method::CONNECT.name().spec_bytes());
    assert(token != Method::OPTIONS.name().spec_bytes());
    assert(token != Method::TRACE.name().spec_bytes());
    assert(token != Method::PATCH.name().spec_bytes());
}

} // verus!
