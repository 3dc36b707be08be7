use basic_http_server::{
    parse_length, parse_request, Connection, ConnectionAction, Headers, HttpMethod, HttpRequest,
    HttpResponse, HttpResponseBuilder, HttpServer, HttpStatusCode, ParseError,
};

fn all_statuses() -> Vec<(HttpStatusCode, &'static str)> {
    vec![
        (HttpStatusCode::Success, "200 OK"),
        (HttpStatusCode::Created, "201 CREATED"),
        (HttpStatusCode::Accepted, "202 ACCEPTED"),
        (HttpStatusCode::NoContent, "204 NO CONTENT"),
        (HttpStatusCode::MovedPermanently, "301 MOVED PERMANENTLY"),
        (HttpStatusCode::Found, "302 FOUND"),
        (HttpStatusCode::NotModified, "304 NOT MODIFIED"),
        (HttpStatusCode::BadRequest, "400 BAD REQUEST"),
        (HttpStatusCode::Unauthorized, "401 UNAUTHORIZED"),
        (HttpStatusCode::Forbidden, "403 FORBIDDEN"),
        (HttpStatusCode::NotFound, "404 NOT FOUND"),
        (HttpStatusCode::MethodNotAllowed, "405 METHOD NOT ALLOWED"),
        (HttpStatusCode::InternalServerError, "500 INTERNAL SERVER ERROR"),
        (HttpStatusCode::NotImplemented, "501 NOT IMPLEMENTED"),
        (HttpStatusCode::BadGateway, "502 BAD GATEWAY"),
        (HttpStatusCode::ServiceUnavailable, "503 SERVICE UNAVAILABLE"),
    ]
}

fn echo_server() -> HttpServer<impl Fn(HttpRequest) -> HttpResponse> {
    HttpServer::new(|request: HttpRequest| {
        let path = request.path.clone();
        let body = String::from_utf8(request.body.clone()).unwrap();
        HttpResponseBuilder::new()
            .status(HttpStatusCode::Success)
            .header("X-Path", &path)
            .body(&body)
            .build()
    })
}

#[test]
fn status_line_for_every_status() {
    for (status, line) in all_statuses() {
        let response = HttpResponseBuilder::new().status(status).build();
        assert_eq!(response.to_string(), format!("HTTP/1.1 {}\r\n\r\n", line));
    }
}

#[test]
fn numeric_codes_and_reasons() {
    assert_eq!(HttpStatusCode::Success.to_http_status(), (200, "OK"));
    assert_eq!(HttpStatusCode::NoContent.to_http_status(), (204, "NO CONTENT"));
    assert_eq!(HttpStatusCode::MethodNotAllowed.to_http_status(), (405, "METHOD NOT ALLOWED"));
    assert_eq!(HttpStatusCode::ServiceUnavailable.to_http_status(), (503, "SERVICE UNAVAILABLE"));
    for (status, line) in all_statuses() {
        let (code, reason) = status.to_http_status();
        assert_eq!(format!("{} {}", code, reason), line);
    }
}

#[test]
fn every_method_token_is_read() {
    let methods = vec![
        ("GET", HttpMethod::Get),
        ("POST", HttpMethod::Post),
        ("PUT", HttpMethod::Put),
        ("PATCH", HttpMethod::Patch),
        ("DELETE", HttpMethod::Delete),
        ("HEAD", HttpMethod::Head),
        ("OPTIONS", HttpMethod::Options),
        ("TRACE", HttpMethod::Trace),
    ];
    for (token, method) in methods {
        assert_eq!(HttpMethod::from_str(token), Ok(method));
        let text = format!("{} /x HTTP/1.1\r\n\r\n", token);
        let pending = parse_request(text.as_bytes()).unwrap();
        assert_eq!(pending.request.method, method);
    }
}

#[test]
fn other_method_tokens_are_refused() {
    for token in ["get", "CONNECT", "", "GETS", "GE", " GET"] {
        assert_eq!(HttpMethod::from_str(token), Err(()));
    }
    let err = parse_request(b"BREW /pot HTTP/1.1\r\n\r\n").unwrap_err();
    assert_eq!(err, ParseError::Malformed);
}

#[test]
fn response_with_headers_and_body() {
    let response = HttpResponseBuilder::new()
        .header("Content-Type", "text/html")
        .header("X-Test", "1")
        .body("<h1>Hi</h1>")
        .build();
    assert_eq!(
        response.to_string(),
        "HTTP/1.1 200 OK\r\nContent-Type: text/html\r\nX-Test: 1\r\n\r\n<h1>Hi</h1>"
    );
}

#[test]
fn later_header_value_replaces_earlier() {
    let response = HttpResponseBuilder::new()
        .status(HttpStatusCode::NotFound)
        .header("A", "1")
        .header("B", "2")
        .header("A", "3")
        .build();
    assert_eq!(response.headers.len(), 2);
    assert_eq!(response.to_string(), "HTTP/1.1 404 NOT FOUND\r\nA: 3\r\nB: 2\r\n\r\n");
}

#[test]
fn serializer_adds_no_content_length() {
    let response = HttpResponseBuilder::new().body("abc").build();
    assert_eq!(response.to_string(), "HTTP/1.1 200 OK\r\n\r\nabc");
}

#[test]
fn headers_map_keeps_one_entry_per_name() {
    let mut headers = Headers::new();
    headers.insert("Host".to_string(), "a".to_string());
    headers.insert("Accept".to_string(), "*/*".to_string());
    headers.insert("Host".to_string(), "b".to_string());
    assert_eq!(headers.len(), 2);
    assert_eq!(headers.get("Host"), Some(&"b".to_string()));
    assert_eq!(headers.get("host"), None);
    let (name, value) = headers.entry(0);
    assert_eq!((name.as_str(), value.as_str()), ("Host", "b"));
}

#[test]
fn request_line_headers_and_body() {
    let data = b"POST /submit HTTP/1.1\r\nHost: example\r\nContent-Length: 5\r\n\r\nhello";
    let pending = parse_request(data).unwrap();
    assert_eq!(pending.remaining, 0);
    let request = pending.request;
    assert_eq!(request.method, HttpMethod::Post);
    assert_eq!(request.path, "/submit");
    assert_eq!(request.headers.len(), 2);
    assert_eq!(request.headers.get("Host"), Some(&"example".to_string()));
    assert_eq!(request.headers.get("Content-Length"), Some(&"5".to_string()));
    assert_eq!(request.body, b"hello".to_vec());
}

#[test]
fn duplicate_request_headers_last_wins() {
    let data = b"GET / HTTP/1.1\r\nX: 1\r\nY: 2\r\nX: 3\r\n\r\n";
    let request = parse_request(data).unwrap().request;
    assert_eq!(request.headers.len(), 2);
    assert_eq!(request.headers.get("X"), Some(&"3".to_string()));
    assert!(request.body.is_empty());
}

#[test]
fn header_value_keeps_later_separators() {
    let data = b"GET / HTTP/1.1\r\nX: a: b\r\n\r\n";
    let request = parse_request(data).unwrap().request;
    assert_eq!(request.headers.get("X"), Some(&"a: b".to_string()));
}

#[test]
fn body_spanning_two_reads() {
    let data = b"POST /upload HTTP/1.1\r\nContent-Length: 20\r\n\r\nabcde";
    let pending = parse_request(data).unwrap();
    assert_eq!(pending.request.body, b"abcde".to_vec());
    assert_eq!(pending.remaining, 15);
    let request = pending.complete(b"fghijklmnopqrst");
    assert_eq!(request.body.len(), 20);
    assert_eq!(request.body, b"abcdefghijklmnopqrst".to_vec());
}

#[test]
fn connection_reads_rest_of_body_once() {
    let server = echo_server();
    let data = b"POST /upload HTTP/1.1\r\nContent-Length: 20\r\n\r\nabcde";
    let (state, action) = server.step(Connection::Parsing, data);
    match action {
        ConnectionAction::Read(n) => assert_eq!(n, 15),
        _ => panic!("a read was expected"),
    }
    assert!(matches!(state, Connection::ReadingBody(_)));
    let (state, action) = server.step(state, b"fghijklmnopqrst");
    assert!(matches!(state, Connection::Closed));
    match action {
        ConnectionAction::Respond(text) => assert_eq!(
            text,
            "HTTP/1.1 200 OK\r\nX-Path: /upload\r\n\r\nabcdefghijklmnopqrst"
        ),
        _ => panic!("a response was expected"),
    }
}

#[test]
fn empty_first_line_is_refused() {
    let data = b"\r\nGET / HTTP/1.1\r\n\r\n";
    assert_eq!(parse_request(data).unwrap_err(), ParseError::Malformed);
}

#[test]
fn malformed_connection_is_closed_and_next_is_served() {
    let server = echo_server();
    let (state, action) = server.step(Connection::Parsing, b"\r\n\r\n");
    assert!(matches!(state, Connection::Closed));
    assert!(matches!(action, ConnectionAction::Close));
    let (state, action) = server.step(Connection::Parsing, b"GET /next HTTP/1.1\r\n\r\n");
    assert!(matches!(state, Connection::Closed));
    match action {
        ConnectionAction::Respond(text) => {
            assert_eq!(text, "HTTP/1.1 200 OK\r\nX-Path: /next\r\n\r\n")
        }
        _ => panic!("a response was expected"),
    }
}

#[test]
fn closed_connection_is_not_read_again() {
    let server = echo_server();
    let (state, action) = server.step(Connection::Parsing, b"GET / HTTP/1.1\r\n\r\n");
    assert!(matches!(action, ConnectionAction::Respond(_)));
    assert!(matches!(state, Connection::Closed));
    let (state, action) = server.step(state, b"GET /again HTTP/1.1\r\n\r\n");
    assert!(matches!(state, Connection::Closed));
    assert!(matches!(action, ConnectionAction::Close));
}

#[test]
fn missing_path_is_refused() {
    assert!(parse_request(b"GET\r\n\r\n").is_err());
    assert!(parse_request(b"GET   \r\n\r\n").is_err());
    assert!(parse_request(b"").is_err());
}

#[test]
fn header_line_without_separator_is_refused() {
    assert!(parse_request(b"GET / HTTP/1.1\r\nHost example\r\n\r\n").is_err());
    assert!(parse_request(b"GET / HTTP/1.1\r\nHost:example\r\n\r\n").is_err());
}

#[test]
fn bad_content_length_is_refused() {
    assert!(parse_request(b"POST / HTTP/1.1\r\nContent-Length: ten\r\n\r\n").is_err());
    assert!(parse_request(b"POST / HTTP/1.1\r\nContent-Length: -1\r\n\r\n").is_err());
    assert!(parse_request(b"POST / HTTP/1.1\r\nContent-Length: \r\n\r\n").is_err());
    assert!(parse_request(
        b"POST / HTTP/1.1\r\nContent-Length: 99999999999999999999999\r\n\r\n"
    )
    .is_err());
}

#[test]
fn content_length_below_bytes_read_is_refused() {
    assert!(parse_request(b"POST / HTTP/1.1\r\nContent-Length: 2\r\n\r\nabcd").is_err());
}

#[test]
fn missing_content_length_means_no_body() {
    let pending = parse_request(b"GET /a HTTP/1.1\r\nHost: h\r\n\r\n").unwrap();
    assert_eq!(pending.remaining, 0);
    assert!(pending.request.body.is_empty());
}

#[test]
fn header_block_without_blank_line() {
    let pending = parse_request(b"GET /a HTTP/1.1\r\nHost: h").unwrap();
    assert_eq!(pending.request.headers.get("Host"), Some(&"h".to_string()));
    assert!(pending.request.body.is_empty());
    let pending = parse_request(b"GET /b").unwrap();
    assert_eq!(pending.request.path, "/b");
    assert_eq!(pending.request.headers.len(), 0);
}

#[test]
fn body_bytes_are_kept_as_they_came() {
    let data = b"PUT /bin HTTP/1.1\r\nContent-Length: 4\r\n\r\n\x00\xff\r\n";
    let pending = parse_request(data).unwrap();
    assert_eq!(pending.remaining, 0);
    assert_eq!(pending.request.body, vec![0u8, 255, 13, 10]);
}

#[test]
fn invalid_utf8_in_path_is_replaced() {
    let pending = parse_request(b"GET /a\xffb HTTP/1.1\r\n\r\n").unwrap();
    assert_eq!(pending.request.path, "/a\u{FFFD}b");
}

#[test]
fn whitespace_around_request_line_tokens() {
    let pending = parse_request(b"  DELETE \t /item/7   HTTP/1.1\r\n\r\n").unwrap();
    assert_eq!(pending.request.method, HttpMethod::Delete);
    assert_eq!(pending.request.path, "/item/7");
}

#[test]
fn length_values() {
    assert_eq!(parse_length("0"), Some(0));
    assert_eq!(parse_length("20"), Some(20));
    assert_eq!(parse_length("+7"), Some(7));
    assert_eq!(parse_length("18446744073709551615"), Some(usize::MAX));
    assert_eq!(parse_length("18446744073709551616"), None);
    assert_eq!(parse_length("+"), None);
    assert_eq!(parse_length(""), None);
    assert_eq!(parse_length("1 2"), None);
    assert_eq!(parse_length("12a"), None);
}

#[test]
fn malformed_connection_then_get_is_answered_by_handler() {
    let server = HttpServer::new(|_request: HttpRequest| HttpResponseBuilder::new().body("ok").build());
    let (state, action) = server.step(Connection::Parsing, b"\r\n\r\n");
    assert!(matches!(state, Connection::Closed));
    assert!(matches!(action, ConnectionAction::Close));
    let (state, action) = server.step(Connection::Parsing, b"GET / HTTP/1.1\r\n\r\n");
    assert!(matches!(state, Connection::Closed));
    match action {
        ConnectionAction::Respond(text) => assert_eq!(text, "HTTP/1.1 200 OK\r\n\r\nok"),
        _ => panic!("a response was expected"),
    }
}

#[test]
fn non_ascii_whitespace_does_not_split_request_line() {
    assert!(parse_request("GET\u{A0}/ HTTP/1.1\r\n\r\n".as_bytes()).is_err());
    let pending = parse_request("GET /a\u{A0}b HTTP/1.1\r\n\r\n".as_bytes()).unwrap();
    assert_eq!(pending.request.path, "/a\u{A0}b");
}
