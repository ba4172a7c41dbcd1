use http_server::{Method, MethodError};

#[test]
fn every_method_is_read_from_its_token() {
    assert_eq!(Method::parse("GET"), Ok(Method::GET));
    assert_eq!(Method::parse("DELETE"), Ok(Method::DELETE));
    assert_eq!(Method::parse("POST"), Ok(Method::POST));
    assert_eq!(Method::parse("PUT"), Ok(Method::PUT));
    assert_eq!(Method::parse("HEAD"), Ok(Method::HEAD));
    assert_eq!(Method::parse("CONNECT"), Ok(Method::CONNECT));
    assert_eq!(Method::parse("OPTIONS"), Ok(Method::OPTIONS));
    assert_eq!(Method::parse("TRACE"), Ok(Method::TRACE));
    assert_eq!(Method::parse("PATCH"), Ok(Method::PATCH));
}

#[test]
fn method_tokens_are_case_sensitive() {
    assert_eq!(Method::parse("get"), Err(MethodError));
    assert_eq!(Method::parse("Get"), Err(MethodError));
    assert_eq!(Method::parse("pOST"), Err(MethodError));
}

#[test]
fn unknown_tokens_are_no_method() {
    assert_eq!(Method::parse(""), Err(MethodError));
    assert_eq!(Method::parse("FOO"), Err(MethodError));
    assert_eq!(Method::parse("GET "), Err(MethodError));
    assert_eq!(Method::parse("GETS"), Err(MethodError));
    assert_eq!(Method::parse("GE"), Err(MethodError));
    assert_eq!(Method::parse("G\u{c9}T"), Err(MethodError));
}

#[test]
fn method_token_round_trip() {
    let all = [
        Method::GET,
        Method::DELETE,
        Method::POST,
        Method::PUT,
        Method::HEAD,
        Method::CONNECT,
        Method::OPTIONS,
        Method::TRACE,
        Method::PATCH,
    ];
    for method in all {
        assert_eq!(Method::parse(method.as_str()), Ok(method));
    }
    assert_eq!(Method::DELETE.as_str(), "DELETE");
}

#[test]
fn method_is_read_through_from_str() {
    assert_eq!("PATCH".parse::<Method>(), Ok(Method::PATCH));
    assert_eq!("patch".parse::<Method>(), Err(MethodError));
}
