use opensessions_server::http::{
    contains_token_ignore_ascii_case, find_terminator, header_progress, http_body,
    parse_http_request, remaining_body, HeaderProgress, HttpRequest, MAX_HTTP_HEADER_BYTES,
};
use opensessions_server::json::{body_of_pairs, JsonField};

fn parsed(text: &str) -> HttpRequest {
    parse_http_request(text.as_bytes()).unwrap()
}

fn error_of(bytes: &[u8]) -> String {
    parse_http_request(bytes).unwrap_err().message().to_string()
}

#[test]
fn requests_are_parsed() {
    let request = parsed(
        "POST  /switch-index?index=3&x=a=b HTTP/1.1\r\nHost: localhost:1\r\nCONTENT-Length:  5 \r\nno colon\r\n\r\nhello",
    );
    assert_eq!(request.method, "POST");
    assert_eq!(request.path, "/switch-index");
    assert_eq!(request.query, Some("index=3&x=a=b".to_string()));
    assert_eq!(
        request.headers,
        vec![
            ("host".to_string(), "localhost:1".to_string()),
            ("content-length".to_string(), "5".to_string()),
        ],
    );
    assert_eq!(request.header("host"), Some("localhost:1"));
    assert_eq!(request.header("Host"), None);
    assert_eq!(request.content_length(), 5);
    assert_eq!(request.query_param("index"), Some("3".to_string()));
    assert_eq!(request.query_param("x"), Some("a=b".to_string()));
    assert_eq!(request.query_param("y"), None);
}

#[test]
fn requests_that_cannot_be_parsed_say_why() {
    assert_eq!(error_of(b"GET / HTTP/1.1\r\n"), "http request missing header terminator");
    assert_eq!(error_of(b"GET \xff\r\n\r\n"), "http request headers were not utf-8");
    assert_eq!(error_of(b"\r\n\r\n"), "http request missing method");
    assert_eq!(error_of(b"  GET  \r\nhost: x\r\n\r\n"), "http request missing target");
}

#[test]
fn the_body_follows_the_first_blank_line() {
    assert_eq!(http_body(b"a\r\n\r\nb\r\n\r\nc"), b"b\r\n\r\nc");
    assert_eq!(http_body(b"a\r\n\r\n"), b"");
    assert_eq!(http_body(b"a\r\nb"), b"");
    assert_eq!(find_terminator(b"\r\n\r\n"), Some(0));
    assert_eq!(find_terminator(b"\r\n\r"), None);
}

#[test]
fn headers_are_read_up_to_a_limit() {
    assert_eq!(header_progress(b"GET / HTTP/1.1\r\n\r\n", 18).unwrap(), HeaderProgress::Complete);
    assert_eq!(header_progress(b"GET /", 5).unwrap(), HeaderProgress::Incomplete);
    assert_eq!(
        header_progress(b"GET /", 0).unwrap_err().message(),
        "client closed before sending request",
    );
    let full = vec![b'a'; MAX_HTTP_HEADER_BYTES];
    assert_eq!(header_progress(&full, 1).unwrap(), HeaderProgress::Incomplete);
    let over = vec![b'a'; MAX_HTTP_HEADER_BYTES + 1];
    assert_eq!(
        header_progress(&over, 1).unwrap_err().message(),
        "http request headers exceeded limit",
    );
}

#[test]
fn the_rest_of_the_body_is_counted() {
    let request = b"POST / HTTP/1.1\r\n\r\nhel".to_vec();
    assert_eq!(remaining_body(&request, 5), 2);
    assert_eq!(remaining_body(&request, 3), 0);
    assert_eq!(remaining_body(&request, 1), 0);
    let mut whole = request.clone();
    whole.extend_from_slice(b"lo");
    assert_eq!(http_body(&whole), b"hello");
    assert_eq!(
        parse_http_request(&whole).unwrap(),
        parse_http_request(&request).unwrap(),
    );
}

#[test]
fn content_lengths_that_are_no_numbers_count_as_zero() {
    assert_eq!(parsed("GET / x\r\ncontent-length: -1\r\n\r\n").content_length(), 0);
    assert_eq!(parsed("GET / x\r\ncontent-length: +7\r\n\r\n").content_length(), 7);
    assert_eq!(
        parsed("GET / x\r\ncontent-length: 99999999999999999999999\r\n\r\n").content_length(),
        0,
    );
    assert_eq!(parsed("GET / x\r\n\r\n").content_length(), 0);
}

#[test]
fn websocket_upgrades_are_recognised() {
    assert!(parsed("GET / x\r\nUpgrade: WebSocket\r\nConnection: keep-alive, UPGRADE\r\n\r\n")
        .is_websocket_upgrade());
    assert!(!parsed("GET / x\r\nUpgrade: websocket\r\n\r\n").is_websocket_upgrade());
    assert!(!parsed("GET / x\r\nUpgrade: h2c\r\nConnection: Upgrade\r\n\r\n").is_websocket_upgrade());
    assert!(contains_token_ignore_ascii_case("a, Upgrade ,b", "upgrade"));
    assert!(!contains_token_ignore_ascii_case("upgraded", "upgrade"));
}

#[test]
fn the_later_of_two_members_counts() {
    let text = |value: &str| JsonField::Text(value.to_string());
    let body = body_of_pairs(vec![
        ("a".to_string(), text("x")),
        ("b".to_string(), JsonField::Null),
        ("a".to_string(), text("y")),
    ]);
    assert_eq!(body.text("a"), Some("y"));
    assert_eq!(body.get("b"), Some(&JsonField::Null));
    assert_eq!(body.get("c"), None);
}
