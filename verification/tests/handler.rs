use server::http::ParseError;
use server::http::Request;
use server::http::Response;
use server::http::StatusCode;
use server::server::bad_request;
use server::server::Handler;

struct Plain {
    seen: usize,
}

impl Handler for Plain {
    fn handle_request(&mut self, request: &Request) -> Response {
        self.seen += 1;
        Response::new(StatusCode::OK, Some(request.path().to_string()))
    }
}

struct Strict;

impl Handler for Strict {
    fn answers_bad_requests_plainly() -> bool {
        false
    }

    fn handle_request(&mut self, _request: &Request) -> Response {
        Response::new(StatusCode::NotFound, None)
    }

    fn handle_bad_request(&mut self, e: &ParseError) -> Response {
        Response::new(StatusCode::BadRequest, Some(e.message().to_string()))
    }
}

fn answer(handler: &mut impl Handler, buf: &[u8]) -> Vec<u8> {
    let response = match Request::parse(buf) {
        Ok(request) => handler.handle_request(&request),
        Err(e) => handler.handle_bad_request(&e),
    };
    let mut sink = Vec::new();
    response.send(&mut sink);
    sink
}

#[test]
fn a_request_goes_to_handle_request() {
    let mut handler = Plain { seen: 0 };
    let sent = answer(&mut handler, b"GET /here?x=1 HTTP/1.1\r\n\r\n");
    assert_eq!(sent, b"HTTP/1.1 200 Ok\r\n\r\n/here");
    assert_eq!(handler.seen, 1);
}

#[test]
fn a_bad_request_is_answered_with_400_and_no_body_by_default() {
    let mut handler = Plain { seen: 0 };
    for buf in [
        &b"GET / HTTP/1.0\r\n"[..],
        &b"GET /"[..],
        &b"FETCH / HTTP/1.1\r\n"[..],
        &b"\xff\xfe"[..],
    ] {
        let sent = answer(&mut handler, buf);
        assert_eq!(sent, b"HTTP/1.1 400 Bad Request\r\n\r\n");
    }
    assert_eq!(handler.seen, 0);
}

#[test]
fn a_handler_may_answer_a_bad_request_in_its_own_way() {
    let mut handler = Strict;
    let sent = answer(&mut handler, b"GET / HTTP/1.0\r\n");
    assert_eq!(sent, b"HTTP/1.1 400 Bad Request\r\n\r\nInvalid Protocol");
    let sent = answer(&mut handler, b"\x80");
    assert_eq!(sent, b"HTTP/1.1 400 Bad Request\r\n\r\nInvalid Encoding");
}

#[test]
fn the_plain_answer_to_a_bad_request_is_400_without_a_body() {
    let mut sink = Vec::new();
    bad_request().send(&mut sink);
    assert_eq!(sink, b"HTTP/1.1 400 Bad Request\r\n\r\n");
}
