use scrawler::http::{accepted_response, bad_request_response, json_response_head, preflight_response, HttpAction, HttpHead};

#[test]
fn post_with_body_is_read() {
    let h = HttpHead::parse("POST /mcp HTTP/1.1\r\nHost: x\r\nContent-Length: 42\r\n\r\n");
    assert_eq!(h.content_length, 42);
    assert!(h.is_post_mcp);
    assert!(!h.is_options);
    assert!(matches!(h.action(), HttpAction::ReadBody(42)));
}

#[test]
fn content_length_any_case_and_spaces() {
    let h = HttpHead::parse("POST / HTTP/1.1\ncontent-LENGTH:   7  \n");
    assert_eq!(h.content_length, 7);
    assert!(h.is_post_mcp);
}

#[test]
fn missing_or_bad_length_is_zero() {
    assert_eq!(HttpHead::parse("POST /mcp HTTP/1.1\r\n").content_length, 0);
    assert_eq!(HttpHead::parse("POST /mcp HTTP/1.1\r\nContent-Length: x\r\n").content_length, 0);
    assert!(matches!(HttpHead::parse("POST /mcp HTTP/1.1\r\n").action(), HttpAction::BadRequest));
}

#[test]
fn preflight_and_other_paths() {
    let h = HttpHead::parse("OPTIONS /mcp HTTP/1.1\r\n");
    assert!(matches!(h.action(), HttpAction::Preflight));
    let h = HttpHead::parse("GET /other HTTP/1.1\r\nContent-Length: 3\r\n");
    assert!(!h.is_post_mcp);
    assert!(matches!(h.action(), HttpAction::BadRequest));
}

#[test]
fn responses() {
    assert!(preflight_response().starts_with("HTTP/1.1 204 No Content\r\n"));
    assert_eq!(bad_request_response(), "HTTP/1.1 400 Bad Request\r\nContent-Length: 0\r\n\r\n");
    assert!(accepted_response().starts_with("HTTP/1.1 202 Accepted"));
    assert_eq!(
        json_response_head(120),
        "HTTP/1.1 200 OK\r\nContent-Type: application/json\r\nContent-Length: 120\r\nAccess-Control-Allow-Origin: *\r\n\r\n"
    );
}

#[test]
fn content_length_written_is_read_back() {
    for n in [0usize, 7, 120, 65535, 1_000_000] {
        let head = json_response_head(n).replace("HTTP/1.1 200 OK", "POST /mcp HTTP/1.1");
        assert_eq!(HttpHead::parse(&head).content_length, n);
    }
}
