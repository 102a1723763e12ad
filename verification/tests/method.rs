use server::http::Method;
use server::http::MethodError;

#[test]
fn every_verb_but_delete_is_read_as_itself() {
    assert_eq!(Method::parse("GET"), Ok(Method::GET));
    assert_eq!(Method::parse("POST"), Ok(Method::POST));
    assert_eq!(Method::parse("PUT"), Ok(Method::PUT));
    assert_eq!(Method::parse("HEAD"), Ok(Method::HEAD));
    assert_eq!(Method::parse("CONNECT"), Ok(Method::CONNECT));
    assert_eq!(Method::parse("OPTIONS"), Ok(Method::OPTIONS));
    assert_eq!(Method::parse("TRACE"), Ok(Method::TRACE));
    assert_eq!(Method::parse("PATCH"), Ok(Method::PATCH));
}

#[test]
fn delete_is_read_as_get() {
    assert_eq!(Method::parse("DELETE"), Ok(Method::GET));
    assert_ne!(Method::parse("DELETE"), Ok(Method::DELETE));
}

#[test]
fn the_match_is_case_sensitive() {
    assert_eq!(Method::parse("get"), Err(MethodError));
    assert_eq!(Method::parse("Get"), Err(MethodError));
    assert_eq!(Method::parse("Post"), Err(MethodError));
}

#[test]
fn the_match_is_exact() {
    assert_eq!(Method::parse(""), Err(MethodError));
    assert_eq!(Method::parse("GE"), Err(MethodError));
    assert_eq!(Method::parse("GETS"), Err(MethodError));
    assert_eq!(Method::parse(" GET"), Err(MethodError));
    assert_eq!(Method::parse("GET "), Err(MethodError));
    assert_eq!(Method::parse("PATCH\r"), Err(MethodError));
}

#[test]
fn other_text_is_no_verb() {
    assert_eq!(Method::parse("FETCH"), Err(MethodError));
    assert_eq!(Method::parse("HTTP/1.1"), Err(MethodError));
    assert_eq!(Method::parse("G\u{c9}T"), Err(MethodError));
    assert_eq!(Method::parse("\u{1f600}"), Err(MethodError));
}

#[test]
fn a_method_is_read_through_from_str() {
    assert_eq!("POST".parse::<Method>(), Ok(Method::POST));
    assert_eq!("DELETE".parse::<Method>(), Ok(Method::GET));
    assert_eq!("post".parse::<Method>(), Err(MethodError));
}
