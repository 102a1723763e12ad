use server::http::Response;
use server::http::StatusCode;

#[test]
fn a_response_with_a_body_is_written() {
    let mut sink: Vec<u8> = Vec::new();
    Response::new(StatusCode::OK, Some("hi".to_string())).send(&mut sink);
    assert_eq!(sink, b"HTTP/1.1 200 Ok\r\n\r\nhi");
}

#[test]
fn a_response_without_a_body_is_written() {
    let mut sink: Vec<u8> = Vec::new();
    Response::new(StatusCode::NotFound, None).send(&mut sink);
    assert_eq!(sink, b"HTTP/1.1 404 Not Found\r\n\r\n");
}

#[test]
fn a_bad_request_is_written() {
    let mut sink: Vec<u8> = Vec::new();
    Response::new(StatusCode::BadRequest, None).send(&mut sink);
    assert_eq!(sink, b"HTTP/1.1 400 Bad Request\r\n\r\n");
}

#[test]
fn an_empty_body_is_written_as_no_body() {
    let mut with: Vec<u8> = Vec::new();
    Response::new(StatusCode::OK, Some(String::new())).send(&mut with);
    let mut without: Vec<u8> = Vec::new();
    Response::new(StatusCode::OK, None).send(&mut without);
    assert_eq!(with, b"HTTP/1.1 200 Ok\r\n\r\n");
    assert_eq!(with, without);
}

#[test]
fn a_response_is_written_behind_what_the_sink_holds() {
    let mut sink: Vec<u8> = b"before".to_vec();
    let response = Response::new(StatusCode::OK, Some("<h1>x</h1>".to_string()));
    response.send(&mut sink);
    assert_eq!(sink, b"beforeHTTP/1.1 200 Ok\r\n\r\n<h1>x</h1>");
    response.send(&mut sink);
    assert_eq!(
        sink,
        b"beforeHTTP/1.1 200 Ok\r\n\r\n<h1>x</h1>HTTP/1.1 200 Ok\r\n\r\n<h1>x</h1>"
    );
}

#[test]
fn a_body_outside_ascii_is_written_as_utf8() {
    let mut sink: Vec<u8> = Vec::new();
    Response::new(StatusCode::OK, Some("caf\u{e9} \u{1f600}".to_string())).send(&mut sink);
    assert_eq!(sink, "HTTP/1.1 200 Ok\r\n\r\ncaf\u{e9} \u{1f600}".as_bytes());
    assert_eq!(&sink[sink.len() - 7..], b"\xc3\xa9 \xf0\x9f\x98\x80");
}

#[test]
fn no_header_is_written() {
    let mut sink: Vec<u8> = Vec::new();
    Response::new(StatusCode::OK, Some("0123456789".to_string())).send(&mut sink);
    let text = String::from_utf8(sink).unwrap();
    assert!(!text.contains("Content-Length"));
    assert_eq!(text.find("\r\n\r\n"), Some("HTTP/1.1 200 Ok".len()));
}

#[test]
fn each_status_has_its_number() {
    assert_eq!(StatusCode::OK.code(), 200);
    assert_eq!(StatusCode::BadRequest.code(), 400);
    assert_eq!(StatusCode::NotFound.code(), 404);
}

#[test]
fn each_status_has_its_reason_phrase() {
    assert_eq!(StatusCode::OK.reason_phrase(), "Ok");
    assert_eq!(StatusCode::BadRequest.reason_phrase(), "Bad Request");
    assert_eq!(StatusCode::NotFound.reason_phrase(), "Not Found");
}
