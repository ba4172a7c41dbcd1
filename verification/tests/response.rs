use http_server::{Response, StatusCode};

#[test]
fn new_keeps_status_and_body() {
    let response = Response::new(StatusCode::OK, Some("hello".to_string()));
    assert_eq!(response.status_code(), StatusCode::OK);
    assert_eq!(response.body(), Some("hello"));
    let response = Response::new(StatusCode::NotFound, None);
    assert_eq!(response.status_code(), StatusCode::NotFound);
    assert_eq!(response.body(), None);
}

#[test]
fn wire_format_with_body() {
    let response = Response::new(StatusCode::OK, Some("<h1>It works!</h1>".to_string()));
    assert_eq!(response.serialize(), "HTTP/1.1 200 OK\r\n\r\n<h1>It works!</h1>");
}

#[test]
fn wire_format_without_body() {
    assert_eq!(Response::new(StatusCode::OK, None).serialize(), "HTTP/1.1 200 OK\r\n\r\n");
    assert_eq!(
        Response::new(StatusCode::BadRequest, None).serialize(),
        "HTTP/1.1 400 Bad Request\r\n\r\n"
    );
    assert_eq!(
        Response::new(StatusCode::NotFound, None).serialize(),
        "HTTP/1.1 404 Not Found\r\n\r\n"
    );
}

#[test]
fn wire_format_with_empty_body() {
    let response = Response::new(StatusCode::NotFound, Some(String::new()));
    assert_eq!(response.body(), Some(""));
    assert_eq!(response.serialize(), "HTTP/1.1 404 Not Found\r\n\r\n");
}

#[test]
fn wire_format_keeps_text_beyond_ascii() {
    let response = Response::new(StatusCode::BadRequest, Some("caf\u{e9} \u{1f600}".to_string()));
    assert_eq!(response.serialize(), "HTTP/1.1 400 Bad Request\r\n\r\ncaf\u{e9} \u{1f600}");
    assert_eq!(
        response.serialize().as_bytes(),
        b"HTTP/1.1 400 Bad Request\r\n\r\ncaf\xc3\xa9 \xf0\x9f\x98\x80"
    );
}

#[test]
fn serializing_twice_gives_the_same_bytes() {
    let response = Response::new(StatusCode::OK, Some("twice".to_string()));
    let first = response.serialize();
    let second = response.serialize();
    assert_eq!(first.as_bytes(), second.as_bytes());
    let response = Response::new(StatusCode::NotFound, None);
    assert_eq!(response.serialize().into_bytes(), response.serialize().into_bytes());
}
