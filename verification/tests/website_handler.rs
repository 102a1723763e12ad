use server::http::Request;
use server::http::Response;
use server::website_handler::Route;

fn sent(response: Response) -> Vec<u8> {
    let mut sink = Vec::new();
    response.send(&mut sink);
    sink
}

#[test]
fn the_root_is_the_index_page() {
    let request = Request::parse(b"GET / HTTP/1.1\r\n").unwrap();
    let route = Route::of(&request);
    assert!(matches!(route, Route::Page("index.html")));
    assert_eq!(route.file(), Some("index.html"));
}

#[test]
fn hello_is_the_hello_page() {
    let request = Request::parse(b"GET /hello?name=x HTTP/1.1\r\n").unwrap();
    let route = Route::of(&request);
    assert!(matches!(route, Route::Page("hello.html")));
    assert_eq!(route.file(), Some("hello.html"));
}

#[test]
fn any_other_path_names_a_file() {
    let request = Request::parse(b"GET /style.css HTTP/1.1\r\n").unwrap();
    let route = Route::of(&request);
    assert!(matches!(route, Route::File("/style.css")));
    assert_eq!(route.file(), Some("/style.css"));

    let request = Request::parse(b"GET /hello/ HTTP/1.1\r\n").unwrap();
    assert!(matches!(Route::of(&request), Route::File("/hello/")));

    let request = Request::parse(b"GET /../secret HTTP/1.1\r\n").unwrap();
    assert!(matches!(Route::of(&request), Route::File("/../secret")));
}

#[test]
fn only_get_is_served() {
    for line in [
        &b"POST / HTTP/1.1\r\n"[..],
        &b"PUT /hello HTTP/1.1\r\n"[..],
        &b"HEAD /style.css HTTP/1.1\r\n"[..],
        &b"PATCH / HTTP/1.1\r\n"[..],
    ] {
        let request = Request::parse(line).unwrap();
        let route = Route::of(&request);
        assert!(matches!(route, Route::NotServed));
        assert_eq!(route.file(), None);
    }
}

#[test]
fn a_delete_request_is_served_as_get() {
    let request = Request::parse(b"DELETE / HTTP/1.1\r\n").unwrap();
    assert!(matches!(Route::of(&request), Route::Page("index.html")));
}

#[test]
fn a_page_is_answered_with_200_whether_or_not_it_was_read() {
    let route = Route::Page("index.html");
    assert_eq!(
        sent(route.respond(Some("<h1>home</h1>".to_string()))),
        b"HTTP/1.1 200 Ok\r\n\r\n<h1>home</h1>"
    );
    assert_eq!(sent(route.respond(None)), b"HTTP/1.1 200 Ok\r\n\r\n");
}

#[test]
fn a_file_is_answered_with_200_if_it_was_read_and_404_if_not() {
    let route = Route::File("/style.css");
    assert_eq!(
        sent(route.respond(Some("body {}".to_string()))),
        b"HTTP/1.1 200 Ok\r\n\r\nbody {}"
    );
    assert_eq!(sent(route.respond(None)), b"HTTP/1.1 404 Not Found\r\n\r\n");
}

#[test]
fn what_is_not_served_is_answered_with_404() {
    let route = Route::NotServed;
    assert_eq!(sent(route.respond(None)), b"HTTP/1.1 404 Not Found\r\n\r\n");
    assert_eq!(
        sent(route.respond(Some("ignored".to_string()))),
        b"HTTP/1.1 404 Not Found\r\n\r\n"
    );
}
