//! A response and its form on the wire.
use vstd::prelude::*;
use vstd::string::*;
use vstd::utf8::*;

use super::status_code::StatusCode;

verus! {

/// The digits of a number in base ten, as ASCII, without leading zeros.
pub open spec fn decimal(n: nat) -> Seq<u8>
    decreases n,
{
    if n < 10 {
        seq![(0x30 + n) as u8]
    } else {
        decimal(n / 10).push((0x30 + n % 10) as u8)
    }
}

/// The model of a [`Response`].
pub struct ResponseView {
    pub status_code: StatusCode,
    pub body: Option<Seq<char>>,
}

impl ResponseView {
    /// The status line: the protocol, the number of the status, its reason
    /// phrase, and an empty line. No header stands between the two line
    /// ends.
    pub open spec fn head(self) -> Seq<u8> {
        "HTTP/1.1 ".spec_bytes() + decimal(self.status_code.code() as nat) + " ".spec_bytes()
            + self.status_code.reason_phrase().spec_bytes() + "\r\n\r\n".spec_bytes()
    }

    /// The bytes that are sent for this response: the status line, then the
    /// body if there is one.
    pub open spec fn wire(self) -> Seq<u8> {
        match self.body {
            Some(body) => self.head() + encode_utf8(body),
            None => self.head(),
        }
    }
}

/// A response: a status and, if there is one, a body.
#[derive(Debug)]
pub struct Response {
    status_code: StatusCode,
    body: Option<String>,
}

impl View for Response {
    type V = ResponseView;

    closed spec fn view(&self) -> ResponseView {
        ResponseView {
            status_code: self.status_code,
            body: match self.body {
                Some(body) => Some(body@),
                None => None,
            },
        }
    }
}

impl Response {
    /// A response with this status and this body.
    pub fn new(status_code: StatusCode, body: Option<String>) -> (r: Response)
        ensures
            r@.status_code == status_code,
            match body {
                Some(text) => r@.body == Some(text@),
                None => r@.body is None,
            },
    {
        Response { status_code, body }
    }

    /// Writes the response to the end of `stream`: what was there stays, and
    /// `wire` of this response follows it.
    pub fn send(&self, stream: &mut Vec<u8>)
        ensures
            final(stream)@ == old(stream)@ + self@.wire(),
    {
        push_text(stream, "HTTP/1.1 ");
        push_decimal(stream, self.status_code.code());
        push_text(stream, " ");
        push_text(stream, self.status_code.reason_phrase());
        push_text(stream, "\r\n\r\n");
        assert(stream@ =~= old(stream)@ + self@.head());
        match &self.body {
            Some(body) => {
                push_text(stream, body.as_str());
                assert(stream@ =~= old(stream)@ + self@.wire());
            },
            None => {},
        }
    }
}

/// Writes a text to the end of `out`.
fn push_text(out: &mut Vec<u8>, s: &str)
    ensures
        final(out)@ == old(out)@ + s.spec_bytes(),
{
    out.extend_from_slice(s.as_bytes());
    assert(out@ =~= old(out)@ + s.spec_bytes());
}

/// Writes a number in base ten to the end of `out`.
fn push_decimal(out: &mut Vec<u8>, n: u16)
    ensures
        final(out)@ == old(out)@ + decimal(n as nat),
    decreases n,
{
    if n >= 10 {
        push_decimal(out, n / 10);
    }
    out.push(0x30 + (n % 10) as u8);
    assert(out@ =~= old(out)@ + decimal(n as nat));
}

/// The status line of each status, written out.
pub proof fn lemma_head(body: Option<Seq<char>>)
    ensures
        (ResponseView { status_code: StatusCode::OK, body }).head()
            == "HTTP/1.1 200 Ok\r\n\r\n".spec_bytes(),
        (ResponseView { status_code: StatusCode::BadRequest, body }).head()
            == "HTTP/1.1 400 Bad Request\r\n\r\n".spec_bytes(),
        (ResponseView { status_code: StatusCode::NotFound, body }).head()
            == "HTTP/1.1 404 Not Found\r\n\r\n".spec_bytes(),
{
    broadcast use is_ascii_spec_bytes;

    reveal_strlit("HTTP/1.1 ");
    reveal_strlit(" ");
    reveal_strlit("\r\n\r\n");
    reveal_strlit("Ok");
    reveal_strlit("Bad Request");
    reveal_strlit("Not Found");
    reveal_strlit("HTTP/1.1 200 Ok\r\n\r\n");
    reveal_strlit("HTTP/1.1 400 Bad Request\r\n\r\n");
    reveal_strlit("HTTP/1.1 404 Not Found\r\n\r\n");
    assert(is_ascii("HTTP/1.1 "));
    assert(is_ascii(" "));
    assert(is_ascii("\r\n\r\n"));
    assert(is_ascii("Ok"));
    assert(is_ascii("Bad Request"));
    assert(is_ascii("Not Found"));
    assert(is_ascii("HTTP/1.1 200 Ok\r\n\r\n"));
    assert(is_ascii("HTTP/1.1 400 Bad Request\r\n\r\n"));
    assert(is_ascii("HTTP/1.1 404 Not Found\r\n\r\n"));
    reveal_with_fuel(decimal, 3);
    assert(decimal(200) =~= seq![0x32u8, 0x30, 0x30]);
    assert(decimal(400) =~= seq![0x34u8, 0x30, 0x30]);
    assert(decimal(404) =~= seq![0x34u8, 0x30, 0x34]);
    assert((ResponseView { status_code: StatusCode::OK, body }).head()
        =~= "HTTP/1.1 200 Ok\r\n\r\n".spec_bytes());
    assert((ResponseView { status_code: StatusCode::BadRequest, body }).head()
        =~= "HTTP/1.1 400 Bad Request\r\n\r\n".spec_bytes());
    assert((ResponseView { status_code: StatusCode::NotFound, body }).head()
        =~= "HTTP/1.1 404 Not Found\r\n\r\n".spec_bytes());
}

} // verus!
