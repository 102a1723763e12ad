//! The request line of a request, read from the raw bytes of a connection.
use core::str::Utf8Error;
use vstd::prelude::*;
use vstd::string::*;
use vstd::utf8::*;

use super::method::Method;
use super::method::MethodError;
use super::query_string::entries_of;
use super::query_string::QueryString;
use super::query_string::ValueView;
use crate::text;
use crate::text::split_first;

verus! {

/// The space between two words of a request line.
pub const SPACE: u8 = 0x20;

/// The carriage return at the end of a request line.
pub const CARRIAGE_RETURN: u8 = 0x0d;

/// The byte between the path and the query string of a request target.
pub const QUESTION_MARK: u8 = 0x3f;

/// Why a buffer is not a request that this server answers.
#[derive(Debug, Clone, Copy, PartialEq, Eq, Structural)]
pub enum ParseError {
    /// The request line has fewer than three words, each followed by a
    /// space or a carriage return.
    InvalidRequest,
    /// The buffer is not well-formed UTF-8.
    InvalidEncoding,
    /// The third word is not `HTTP/1.1`.
    InvalidProtocol,
    /// The first word names no method.
    InvalidMethod,
}

impl ParseError {
    /// The phrase that names this error.
    pub open spec fn spec_message(&self) -> &'static str {
        match self {
            ParseError::InvalidRequest => "Invalid Request",
            ParseError::InvalidEncoding => "Invalid Encoding",
            ParseError::InvalidProtocol => "Invalid Protocol",
            ParseError::InvalidMethod => "Invalid Method",
        }
    }

    /// The phrase that names this error.
    #[verifier::when_used_as_spec(spec_message)]
    pub fn message(&self) -> (r: &'static str)
        ensures
            r == self.spec_message(),
    {
        match self {
            ParseError::InvalidRequest => "Invalid Request",
            ParseError::InvalidEncoding => "Invalid Encoding",
            ParseError::InvalidProtocol => "Invalid Protocol",
            ParseError::InvalidMethod => "Invalid Method",
        }
    }
}

impl From<MethodError> for ParseError {
    fn from(e: MethodError) -> (r: ParseError) {
        ParseError::InvalidMethod
    }
}

impl vstd::std_specs::convert::FromSpecImpl<MethodError> for ParseError {
    open spec fn obeys_from_spec() -> bool {
        true
    }

    open spec fn from_spec(e: MethodError) -> ParseError {
        ParseError::InvalidMethod
    }
}

impl From<Utf8Error> for ParseError {
    fn from(e: Utf8Error) -> (r: ParseError) {
        ParseError::InvalidEncoding
    }
}

impl vstd::std_specs::convert::FromSpecImpl<Utf8Error> for ParseError {
    open spec fn obeys_from_spec() -> bool {
        true
    }

    open spec fn from_spec(e: Utf8Error) -> ParseError {
        ParseError::InvalidEncoding
    }
}

/// The first word of a text and what follows it: the parts before and behind
/// the first space or carriage return. `None` if the text holds neither.
pub open spec fn next_word(s: Seq<u8>) -> Option<(Seq<u8>, Seq<u8>)> {
    split_first(s, set![SPACE, CARRIAGE_RETURN])
}

/// The path of a request target: what stands before its first `?`, or all of
/// it.
pub open spec fn path_of(target: Seq<u8>) -> Seq<u8> {
    match split_first(target, set![QUESTION_MARK]) {
        Some((path, _)) => path,
        None => target,
    }
}

/// The query string of a request target: the entries of what stands behind
/// its first `?`, if it holds one.
pub open spec fn query_of(target: Seq<u8>) -> Option<Seq<(Seq<u8>, ValueView)>> {
    match split_first(target, set![QUESTION_MARK]) {
        Some((_, query)) => Some(entries_of(query)),
        None => None,
    }
}

/// The model of a [`Request`].
pub struct RequestView {
    pub path: Seq<u8>,
    pub query_string: Option<Seq<(Seq<u8>, ValueView)>>,
    pub method: Method,
}

/// What a buffer is read as. The checks are made in this order: the
/// encoding of the whole buffer, the presence of three words, the protocol,
/// the method. What follows the third word is not looked at.
pub open spec fn parse_spec(buf: Seq<u8>) -> Result<RequestView, ParseError> {
    if !valid_utf8(buf) {
        Err(ParseError::InvalidEncoding)
    } else {
        match next_word(buf) {
            None => Err(ParseError::InvalidRequest),
            Some((method, rest)) => match next_word(rest) {
                None => Err(ParseError::InvalidRequest),
                Some((target, rest)) => match next_word(rest) {
                    None => Err(ParseError::InvalidRequest),
                    Some((protocol, _)) => if protocol != "HTTP/1.1".spec_bytes() {
                        Err(ParseError::InvalidProtocol)
                    } else {
                        match Method::of_token(method) {
                            None => Err(ParseError::InvalidMethod),
                            Some(method) => Ok(
                                RequestView {
                                    path: path_of(target),
                                    query_string: query_of(target),
                                    method,
                                },
                            ),
                        }
                    },
                },
            },
        }
    }
}

/// A request: its method, the path it asks for, and the query string if the
/// target has one. Path and query string are slices of the buffer that the
/// request was read from.
#[derive(Debug)]
pub struct Request<'buf> {
    path: &'buf str,
    query_string: Option<QueryString<'buf>>,
    method: Method,
}

impl<'buf> View for Request<'buf> {
    type V = RequestView;

    closed spec fn view(&self) -> RequestView {
        RequestView {
            path: self.path.spec_bytes(),
            query_string: match self.query_string {
                Some(q) => Some(q@),
                None => None,
            },
            method: self.method,
        }
    }
}

impl<'buf> Request<'buf> {
    /// The path holds no `?`: what stands behind the first one of the target
    /// belongs to the query string.
    #[verifier::type_invariant]
    closed spec fn path_is_cut(&self) -> bool {
        !self.path.spec_bytes().contains(QUESTION_MARK)
    }

    /// The path, without the query string and without the `?` before it.
    pub fn path(&self) -> (r: &str)
        ensures
            r.spec_bytes() == self@.path,
            !r.spec_bytes().contains(QUESTION_MARK),
    {
        proof {
            use_type_invariant(self);
        }
        &self.path
    }

    /// The method.
    pub fn method(&self) -> (r: &Method)
        ensures
            *r == self@.method,
    {
        &self.method
    }

    /// The query string, if the target had one.
    pub fn query_string(&self) -> (r: Option<&QueryString<'buf>>)
        ensures
            match r {
                Some(q) => self@.query_string == Some(q@),
                None => self@.query_string is None,
            },
    {
        self.query_string.as_ref()
    }

    /// Reads the request line of a buffer: `Ok` with the request that
    /// `parse_spec` gives for the bytes, or the error that it gives.
    pub fn parse(buf: &'buf [u8]) -> (r: Result<Request<'buf>, ParseError>)
        ensures
            match parse_spec(buf@) {
                Ok(view) => r matches Ok(request) && request@ == view,
                Err(e) => r matches Err(f) && f == e,
            },
            !valid_utf8(buf@) ==> (r matches Err(e) && e == ParseError::InvalidEncoding),
    {
        let request = match core::str::from_utf8(buf) {
            Ok(s) => s,
            Err(e) => {
                return Err(ParseError::from(e));
            },
        };
        let (method, request) = match get_next_word(request) {
            Some(found) => found,
            None => {
                return Err(ParseError::InvalidRequest);
            },
        };
        let (target, request) = match get_next_word(request) {
            Some(found) => found,
            None => {
                return Err(ParseError::InvalidRequest);
            },
        };
        let (protocol, _) = match get_next_word(request) {
            Some(found) => found,
            None => {
                return Err(ParseError::InvalidRequest);
            },
        };
        if !text::eq(protocol, "HTTP/1.1") {
            return Err(ParseError::InvalidProtocol);
        }
        let method = match Method::parse(method) {
            Ok(m) => m,
            Err(e) => {
                return Err(ParseError::from(e));
            },
        };
        proof {
            text::lemma_split_first(target.spec_bytes(), set![QUESTION_MARK]);
        }
        match text::split_once(target, QUESTION_MARK) {
            Some((path, query)) => {
                let query_string = Some(QueryString::parse(query));
                Ok(Request { path, query_string, method })
            },
            None => Ok(Request { path: target, query_string: None, method }),
        }
    }
}

/// Takes the first word off a text: the word, and what follows the space or
/// carriage return behind it. `None` if the text holds neither of the two.
pub fn get_next_word(request: &str) -> (r: Option<(&str, &str)>)
    ensures
        match next_word(request.spec_bytes()) {
            Some((word, rest)) => r matches Some((w, t)) && w.spec_bytes() == word
                && t.spec_bytes() == rest,
            None => r is None,
        },
{
    text::split_once_either(request, SPACE, CARRIAGE_RETURN)
}

impl<'buf> TryFrom<&'buf [u8]> for Request<'buf> {
    type Error = ParseError;

    /// The same as [`Request::parse`].
    fn try_from(buf: &'buf [u8]) -> (r: Result<Request<'buf>, ParseError>)
        ensures
            match parse_spec(buf@) {
                Ok(view) => r matches Ok(request) && request@ == view,
                Err(e) => r matches Err(f) && f == e,
            },
    {
        Request::parse(buf)
    }
}

impl<'buf> vstd::std_specs::convert::TryFromSpecImpl<&'buf [u8]> for Request<'buf> {
    /// A request holds slices of its buffer, so no value of it can be written
    /// down from the bytes alone: the contract of `try_from` speaks of the
    /// view of the result, and `try_from_spec` is left unused.
    open spec fn obeys_try_from_spec() -> bool {
        false
    }

    open spec fn try_from_spec(buf: &'buf [u8]) -> Result<Request<'buf>, ParseError> {
        arbitrary()
    }
}

/// Whether a text holds neither a space nor a carriage return.
pub open spec fn is_word(s: Seq<u8>) -> bool {
    forall|j: int| 0 <= j < s.len() ==> #[trigger] s[j] != SPACE && s[j] != CARRIAGE_RETURN
}

/// Whether a byte ends a word.
pub open spec fn ends_word(b: u8) -> bool {
    b == SPACE || b == CARRIAGE_RETURN
}

/// Three words, each with the byte that ends it, and what follows them.
pub open spec fn request_line(
    method: Seq<u8>,
    end_of_method: u8,
    target: Seq<u8>,
    end_of_target: u8,
    protocol: Seq<u8>,
    end_of_protocol: u8,
    rest: Seq<u8>,
) -> Seq<u8> {
    method + seq![end_of_method] + (target + seq![end_of_target] + (protocol
        + seq![end_of_protocol] + rest))
}

/// A buffer that is not well-formed UTF-8 is refused for its encoding,
/// whatever words it holds.
pub proof fn lemma_encoding_comes_first(buf: Seq<u8>)
    requires
        !valid_utf8(buf),
    ensures
        parse_spec(buf) == Err::<RequestView, ParseError>(ParseError::InvalidEncoding),
{
}

/// A well-encoded buffer that starts with three words is refused for its
/// protocol if the third is not `HTTP/1.1`, else for its method if the first
/// names none, and else read as a request with that method and with the path
/// and query string of the second word. What follows the third word makes no
/// difference.
pub proof fn lemma_request_line(
    method: Seq<u8>,
    end_of_method: u8,
    target: Seq<u8>,
    end_of_target: u8,
    protocol: Seq<u8>,
    end_of_protocol: u8,
    rest: Seq<u8>,
)
    requires
        is_word(method),
        is_word(target),
        is_word(protocol),
        ends_word(end_of_method),
        ends_word(end_of_target),
        ends_word(end_of_protocol),
        valid_utf8(
            request_line(
                method,
                end_of_method,
                target,
                end_of_target,
                protocol,
                end_of_protocol,
                rest,
            ),
        ),
    ensures
        parse_spec(
            request_line(
                method,
                end_of_method,
                target,
                end_of_target,
                protocol,
                end_of_protocol,
                rest,
            ),
        ) == if protocol != "HTTP/1.1".spec_bytes() {
            Err::<RequestView, ParseError>(ParseError::InvalidProtocol)
        } else {
            match Method::of_token(method) {
                None => Err(ParseError::InvalidMethod),
                Some(m) => Ok(
                    RequestView {
                        path: path_of(target),
                        query_string: query_of(target),
                        method: m,
                    },
                ),
            }
        },
{
    let stops = set![SPACE, CARRIAGE_RETURN];
    let third = protocol + seq![end_of_protocol] + rest;
    let second = target + seq![end_of_target] + third;
    text::lemma_split_first_of_join(method, end_of_method, second, stops);
    text::lemma_split_first_of_join(target, end_of_target, third, stops);
    text::lemma_split_first_of_join(protocol, end_of_protocol, rest, stops);
}

/// A well-encoded buffer that starts with three words, the third of them
/// `HTTP/1.0`, is refused for its protocol.
pub proof fn lemma_http_1_0(
    method: Seq<u8>,
    end_of_method: u8,
    target: Seq<u8>,
    end_of_target: u8,
    end_of_protocol: u8,
    rest: Seq<u8>,
)
    requires
        is_word(method),
        is_word(target),
        ends_word(end_of_method),
        ends_word(end_of_target),
        ends_word(end_of_protocol),
        valid_utf8(
            request_line(
                method,
                end_of_method,
                target,
                end_of_target,
                "HTTP/1.0".spec_bytes(),
                end_of_protocol,
                rest,
            ),
        ),
    ensures
        parse_spec(
            request_line(
                method,
                end_of_method,
                target,
                end_of_target,
                "HTTP/1.0".spec_bytes(),
                end_of_protocol,
                rest,
            ),
        ) == Err::<RequestView, ParseError>(ParseError::InvalidProtocol),
{
    broadcast use is_ascii_spec_bytes;

    reveal_strlit("HTTP/1.0");
    reveal_strlit("HTTP/1.1");
    assert(is_ascii("HTTP/1.0"));
    assert(is_ascii("HTTP/1.1"));
    let protocol = "HTTP/1.0".spec_bytes();
    assert(protocol[7] != "HTTP/1.1".spec_bytes()[7]);
    assert(is_word(protocol));
    lemma_request_line(
        method,
        end_of_method,
        target,
        end_of_target,
        protocol,
        end_of_protocol,
        rest,
    );
}

/// The path of a request that was read holds no `?`, and the request has a
/// query string exactly if its target held one.
pub proof fn lemma_path_is_cut(target: Seq<u8>)
    ensures
        !path_of(target).contains(QUESTION_MARK),
        query_of(target) is Some <==> target.contains(QUESTION_MARK),
        query_of(target) is None ==> path_of(target) == target,
{
    let stops = set![QUESTION_MARK];
    text::lemma_split_first(target, stops);
    match split_first(target, stops) {
        Some((path, query)) => {
            assert(target[path.len() as int] == QUESTION_MARK);
        },
        None => {},
    }
}

/// The number of bytes of a text that end a word.
pub open spec fn word_ends(s: Seq<u8>) -> nat
    decreases s.len(),
{
    if s.len() == 0 {
        0
    } else if ends_word(s[0]) {
        1 + word_ends(s.drop_first())
    } else {
        word_ends(s.drop_first())
    }
}

/// Taking a word off a text takes one word end off it; a text without a
/// next word has none.
pub proof fn lemma_next_word_ends(s: Seq<u8>)
    ensures
        match next_word(s) {
            Some((_, rest)) => word_ends(s) == 1 + word_ends(rest),
            None => word_ends(s) == 0,
        },
    decreases s.len(),
{
    let stops = set![SPACE, CARRIAGE_RETURN];
    if s.len() != 0 {
        let shorter = s.drop_first();
        if ends_word(s[0]) {
            assert(s.skip(1) =~= shorter);
        } else {
            lemma_next_word_ends(shorter);
            text::lemma_first_of(shorter, stops);
            let i = text::first_of(shorter, stops);
            if i < shorter.len() {
                assert(shorter.skip(i + 1) =~= s.skip(i + 2));
            }
        }
    }
}

/// A well-encoded buffer is refused as no request line exactly if fewer
/// than three of its bytes end a word.
pub proof fn lemma_too_few_words(buf: Seq<u8>)
    requires
        valid_utf8(buf),
    ensures
        parse_spec(buf) == Err::<RequestView, ParseError>(ParseError::InvalidRequest)
            <==> word_ends(buf) < 3,
{
    lemma_next_word_ends(buf);
    if let Some((_, rest)) = next_word(buf) {
        lemma_next_word_ends(rest);
        if let Some((_, rest)) = next_word(rest) {
            lemma_next_word_ends(rest);
        }
    }
}

/// A buffer in which three bytes or more end a word starts with three
/// words: it is the request line of its first three words, of the bytes
/// that end them, and of what follows.
pub proof fn lemma_three_words(buf: Seq<u8>)
    requires
        word_ends(buf) >= 3,
    ensures
        next_word(buf) matches Some((method, first)) && next_word(first) matches Some(
            (target, second),
        ) && next_word(second) matches Some((protocol, rest)) && {
            &&& is_word(method)
            &&& is_word(target)
            &&& is_word(protocol)
            &&& ends_word(buf[method.len() as int])
            &&& ends_word(first[target.len() as int])
            &&& ends_word(second[protocol.len() as int])
            &&& buf == request_line(
                method,
                buf[method.len() as int],
                target,
                first[target.len() as int],
                protocol,
                second[protocol.len() as int],
                rest,
            )
        },
{
    let stops = set![SPACE, CARRIAGE_RETURN];
    lemma_next_word_ends(buf);
    text::lemma_split_first(buf, stops);
    let (method, first) = next_word(buf)->0;
    lemma_next_word_ends(first);
    text::lemma_split_first(first, stops);
    let (target, second) = next_word(first)->0;
    lemma_next_word_ends(second);
    text::lemma_split_first(second, stops);
    let (protocol, rest) = next_word(second)->0;
    assert(buf =~= request_line(
        method,
        buf[method.len() as int],
        target,
        first[target.len() as int],
        protocol,
        second[protocol.len() as int],
        rest,
    ));
}

} // verus!
