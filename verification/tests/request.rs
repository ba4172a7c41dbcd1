use http_server::{Method, ParseError, Request};

#[test]
fn plain_get_is_parsed() {
    let request = Request::parse(b"GET / HTTP/1.1\n").unwrap();
    assert_eq!(request.method(), Method::GET);
    assert_eq!(request.path(), "/");
    assert_eq!(request.query_string(), None);
}

#[test]
fn get_with_query_is_parsed() {
    let request = Request::parse(b"GET /hello?x=1 HTTP/1.1\n").unwrap();
    assert_eq!(request.method(), Method::GET);
    assert_eq!(request.path(), "/hello");
    assert_eq!(request.query_string(), Some("x=1"));
}

#[test]
fn wrong_protocol_is_refused() {
    assert_eq!(Request::parse(b"GET / HTTP/1.0\n").unwrap_err(), ParseError::InvalidProtocol);
}

#[test]
fn unknown_method_is_refused() {
    assert_eq!(Request::parse(b"FOO / HTTP/1.1\n").unwrap_err(), ParseError::InvalidMethod);
}

#[test]
fn empty_buffer_is_an_invalid_request() {
    assert_eq!(Request::parse(b"").unwrap_err(), ParseError::InvalidRequest);
}

#[test]
fn bytes_that_are_not_utf8_are_an_invalid_encoding() {
    assert_eq!(Request::parse(b"GET /\xff HTTP/1.1\n").unwrap_err(), ParseError::InvalidEncoding);
    assert_eq!(Request::parse(b"\xc3").unwrap_err(), ParseError::InvalidEncoding);
    assert_eq!(Request::parse(b"\xc0\x80").unwrap_err(), ParseError::InvalidEncoding);
    assert_eq!(Request::parse(b"\xed\xa0\x80").unwrap_err(), ParseError::InvalidEncoding);
    assert_eq!(Request::parse(b"\xf4\x90\x80\x80").unwrap_err(), ParseError::InvalidEncoding);
    assert_eq!(Request::parse(b"\x80").unwrap_err(), ParseError::InvalidEncoding);
}

#[test]
fn encoding_is_checked_on_the_whole_buffer_first() {
    assert_eq!(
        Request::parse(b"GET / HTTP/1.1\nbody \xff").unwrap_err(),
        ParseError::InvalidEncoding
    );
    assert_eq!(Request::parse(b"FOO / HTTP/1.0\n\xfe").unwrap_err(), ParseError::InvalidEncoding);
}

#[test]
fn missing_words_are_an_invalid_request() {
    assert_eq!(Request::parse(b"GET").unwrap_err(), ParseError::InvalidRequest);
    assert_eq!(Request::parse(b"GET ").unwrap_err(), ParseError::InvalidRequest);
    assert_eq!(Request::parse(b"GET /").unwrap_err(), ParseError::InvalidRequest);
    assert_eq!(Request::parse(b"GET / ").unwrap_err(), ParseError::InvalidRequest);
    assert_eq!(Request::parse(b"GET /\n").unwrap_err(), ParseError::InvalidRequest);
    assert_eq!(Request::parse(b"\n").unwrap_err(), ParseError::InvalidRequest);
    assert_eq!(Request::parse(b"FOO bar").unwrap_err(), ParseError::InvalidRequest);
}

#[test]
fn the_protocol_word_needs_a_separator_after_it() {
    assert_eq!(Request::parse(b"GET / HTTP/1.1").unwrap_err(), ParseError::InvalidRequest);
    assert!(Request::parse(b"GET / HTTP/1.1 ").is_ok());
    assert!(Request::parse(b"GET / HTTP/1.1\n").is_ok());
}

#[test]
fn protocol_must_be_exactly_http_1_1() {
    assert_eq!(Request::parse(b"GET / HTTP/2\n").unwrap_err(), ParseError::InvalidProtocol);
    assert_eq!(Request::parse(b"GET / http/1.1\n").unwrap_err(), ParseError::InvalidProtocol);
    assert_eq!(Request::parse(b"GET / HTTP/1.1\r\n").unwrap_err(), ParseError::InvalidProtocol);
    assert_eq!(Request::parse(b"GET / HTTP/1.10\n").unwrap_err(), ParseError::InvalidProtocol);
    assert_eq!(Request::parse(b"GET /  \n").unwrap_err(), ParseError::InvalidProtocol);
    assert_eq!(Request::parse(b"GET  / HTTP/1.1\n").unwrap_err(), ParseError::InvalidProtocol);
}

#[test]
fn protocol_is_checked_before_the_method() {
    assert_eq!(Request::parse(b"FOO / HTTP/1.0\n").unwrap_err(), ParseError::InvalidProtocol);
    assert_eq!(Request::parse(b"get / HTTP/1.1\n").unwrap_err(), ParseError::InvalidMethod);
    assert_eq!(Request::parse(b" / HTTP/1.1\n").unwrap_err(), ParseError::InvalidMethod);
}

#[test]
fn every_method_is_accepted_on_a_request_line() {
    let lines: [(&[u8], Method); 9] = [
        (b"GET /a HTTP/1.1\n", Method::GET),
        (b"DELETE /a HTTP/1.1\n", Method::DELETE),
        (b"POST /a HTTP/1.1\n", Method::POST),
        (b"PUT /a HTTP/1.1\n", Method::PUT),
        (b"HEAD /a HTTP/1.1\n", Method::HEAD),
        (b"CONNECT /a HTTP/1.1\n", Method::CONNECT),
        (b"OPTIONS /a HTTP/1.1\n", Method::OPTIONS),
        (b"TRACE /a HTTP/1.1\n", Method::TRACE),
        (b"PATCH /a HTTP/1.1\n", Method::PATCH),
    ];
    for (line, method) in lines {
        let request = Request::parse(line).unwrap();
        assert_eq!(request.method(), method);
        assert_eq!(request.path(), "/a");
        assert_eq!(request.query_string(), None);
    }
}

#[test]
fn separators_may_be_spaces_or_newlines() {
    let request = Request::parse(b"GET\n/x\nHTTP/1.1 ").unwrap();
    assert_eq!(request.method(), Method::GET);
    assert_eq!(request.path(), "/x");
    assert_eq!(request.query_string(), None);
}

#[test]
fn what_follows_the_request_line_is_not_looked_at() {
    let request =
        Request::parse(b"POST /submit?a=b HTTP/1.1\nHost: example.org\r\n\r\nbody ? text").unwrap();
    assert_eq!(request.method(), Method::POST);
    assert_eq!(request.path(), "/submit");
    assert_eq!(request.query_string(), Some("a=b"));
}

#[test]
fn path_round_trip() {
    let paths = ["/", "", "/index.html", "/a/b/c", "/caf\u{e9}/\u{65e5}\u{672c}", "*", "/a%20b"];
    for path in paths {
        let line = format!("GET {} HTTP/1.1\n", path);
        let request = Request::parse(line.as_bytes()).unwrap();
        assert_eq!(request.method(), Method::GET);
        assert_eq!(request.path(), path);
        assert_eq!(request.query_string(), None);
    }
}

#[test]
fn path_and_query_round_trip() {
    let cases = [
        ("/", "x=1"),
        ("/search", "q=rust&lang=en"),
        ("", ""),
        ("/p", "a?b?c"),
        ("/caf\u{e9}", "n=\u{1f600}"),
        ("/p", "?"),
    ];
    for (path, query) in cases {
        let line = format!("GET {}?{} HTTP/1.1\n", path, query);
        let request = Request::parse(line.as_bytes()).unwrap();
        assert_eq!(request.method(), Method::GET);
        assert_eq!(request.path(), path);
        assert_eq!(request.query_string(), Some(query));
    }
}

#[test]
fn empty_query_is_present_and_empty() {
    let request = Request::parse(b"GET /path? HTTP/1.1\n").unwrap();
    assert_eq!(request.path(), "/path");
    assert_eq!(request.query_string(), Some(""));
}

#[test]
fn query_starts_after_the_first_question_mark() {
    let request = Request::parse(b"GET /a?b?c HTTP/1.1\n").unwrap();
    assert_eq!(request.path(), "/a");
    assert_eq!(request.query_string(), Some("b?c"));
    let request = Request::parse(b"GET ?only HTTP/1.1\n").unwrap();
    assert_eq!(request.path(), "");
    assert_eq!(request.query_string(), Some("only"));
}

#[test]
fn try_from_is_parse() {
    let buffer: &[u8] = b"PUT /thing?v=2 HTTP/1.1\n";
    let request = Request::try_from(buffer).unwrap();
    assert_eq!(request.method(), Method::PUT);
    assert_eq!(request.path(), "/thing");
    assert_eq!(request.query_string(), Some("v=2"));
    let bad: &[u8] = b"PUT /thing";
    assert_eq!(Request::try_from(bad).unwrap_err(), ParseError::InvalidRequest);
}

#[test]
fn error_messages() {
    assert_eq!(ParseError::InvalidRequest.message(), "Invalid Request");
    assert_eq!(ParseError::InvalidEncoding.message(), "Invalid Encoding");
    assert_eq!(ParseError::InvalidProtocol.message(), "Invalid Protocol");
    assert_eq!(ParseError::InvalidMethod.message(), "Invalid Method");
}

#[test]
fn errors_convert_from_their_causes() {
    let method_error = Method::parse("NOPE").unwrap_err();
    assert_eq!(ParseError::from(method_error), ParseError::InvalidMethod);
    let bad: &[u8] = b"\xff";
    let utf8_error = std::str::from_utf8(bad).unwrap_err();
    assert_eq!(ParseError::from(utf8_error), ParseError::InvalidEncoding);
}
