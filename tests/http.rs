use http_server::bytes::{parse_decimal, push_decimal};
use http_server::request::{parse_length, HttpMethod, HttpRequest, ParseError};
use http_server::response::{
    accepts_gzip, echo_response, get_file_response, not_found_response, post_file_response,
    root_response, user_agent_response, AcceptType,
};
use http_server::router::{route, Action, RouteError};
use http_server::worker::{next_step, Step};

fn answer(raw: &[u8], dir: Option<&[u8]>) -> Vec<u8> {
    match next_step(raw, false, dir) {
        Step::Perform(Action::Respond(b)) => b,
        _ => panic!("expected an answer"),
    }
}

fn text(b: &[u8]) -> String {
    String::from_utf8(b.to_vec()).unwrap()
}

#[test]
fn root_is_plain_ok_for_get_and_post() {
    assert_eq!(answer(b"GET / HTTP/1.1\r\n\r\n", None), b"HTTP/1.1 200 OK\r\n\r\n".to_vec());
    assert_eq!(
        answer(b"POST / HTTP/1.1\r\nHost: x\r\nContent-Length: 3\r\n\r\nabc", None),
        b"HTTP/1.1 200 OK\r\n\r\n".to_vec()
    );
    assert_eq!(root_response(), b"HTTP/1.1 200 OK\r\n\r\n".to_vec());
}

#[test]
fn echo_returns_payload_with_length() {
    let r = answer(b"GET /echo/abc HTTP/1.1\r\n\r\n", None);
    assert_eq!(
        text(&r),
        "HTTP/1.1 200 OK\r\nContent-Type: text/plain\r\nContent-Length: 3\r\n\r\nabc"
    );
}

#[test]
fn echo_keeps_embedded_slashes() {
    let r = answer(b"POST /echo/a/b/c HTTP/1.1\r\n\r\n", None);
    assert_eq!(
        text(&r),
        "HTTP/1.1 200 OK\r\nContent-Type: text/plain\r\nContent-Length: 5\r\n\r\na/b/c"
    );
}

#[test]
fn echo_counts_utf8_bytes() {
    let payload = "héllo";
    let r = echo_response(payload.as_bytes(), None);
    assert_eq!(
        text(&r),
        "HTTP/1.1 200 OK\r\nContent-Type: text/plain\r\nContent-Length: 6\r\n\r\nhéllo"
    );
}

#[test]
fn echo_empty_payload() {
    let r = answer(b"GET /echo/ HTTP/1.1\r\n\r\n", None);
    assert_eq!(text(&r), "HTTP/1.1 200 OK\r\nContent-Type: text/plain\r\nContent-Length: 0\r\n\r\n");
}

#[test]
fn echo_gzip_announced() {
    let r = answer(b"GET /echo/abc HTTP/1.1\r\nAccept-Encoding: gzip\r\n\r\n", None);
    assert_eq!(
        text(&r),
        "HTTP/1.1 200 OK\r\nContent-Type: text/plain\r\nContent-Length: 3\r\nContent-Encoding: gzip\r\n\r\nabc"
    );
}

#[test]
fn echo_identity_not_announced() {
    let r = answer(b"GET /echo/abc HTTP/1.1\r\nAccept-Encoding: identity\r\n\r\n", None);
    assert_eq!(
        text(&r),
        "HTTP/1.1 200 OK\r\nContent-Type: text/plain\r\nContent-Length: 3\r\n\r\nabc"
    );
    let r = echo_response(b"abc", None);
    assert!(!text(&r).contains("Content-Encoding"));
}

#[test]
fn echo_gzip_found_after_other_token() {
    let r = answer(b"GET /echo/xy HTTP/1.1\r\nAccept-Encoding: br, gzip\r\n\r\n", None);
    assert_eq!(
        text(&r),
        "HTTP/1.1 200 OK\r\nContent-Type: text/plain\r\nContent-Length: 2\r\nContent-Encoding: gzip\r\n\r\nxy"
    );
}

#[test]
fn gzip_token_rules() {
    assert!(accepts_gzip(b"gzip"));
    assert!(accepts_gzip(b"  gzip  "));
    assert!(accepts_gzip(b"br,gzip,deflate"));
    assert!(accepts_gzip(b"br, \tgzip"));
    assert!(!accepts_gzip(b"GZIP"));
    assert!(!accepts_gzip(b"gzip;q=1"));
    assert!(!accepts_gzip(b"*"));
    assert!(!accepts_gzip(b""));
    assert!(!accepts_gzip(b"br, deflate"));
    assert_eq!(AcceptType::parse(b"gzip"), Some(AcceptType::Gzip));
    assert_eq!(AcceptType::parse(b" gzip"), None);
}

#[test]
fn file_post_then_get_round_trip() {
    let dir: &[u8] = b"/tmp/data";
    let post = HttpRequest::parse(b"POST /files/name HTTP/1.1\r\nContent-Length: 5\r\n\r\nhello").unwrap();
    let written = match route(&post, Some(dir)) {
        Ok(Action::WriteFile(p, b)) => (p, b),
        _ => panic!("expected a write"),
    };
    assert_eq!(written.0, b"/tmp/data/name".to_vec());
    assert_eq!(written.1, b"hello".to_vec());
    assert_eq!(post_file_response(), b"HTTP/1.1 201 Created\r\n\r\n".to_vec());
    let get = HttpRequest::parse(b"GET /files/name HTTP/1.1\r\n\r\n").unwrap();
    match route(&get, Some(dir)) {
        Ok(Action::ReadFile(p)) => assert_eq!(p, written.0),
        _ => panic!("expected a read"),
    }
    let r = get_file_response(Some(written.1.as_slice()));
    assert_eq!(
        text(&r),
        "HTTP/1.1 200 OK\r\nContent-Type: application/octet-stream\r\nContent-Length: 5\r\n\r\nhello"
    );
}

#[test]
fn file_post_without_body_writes_empty() {
    let post = HttpRequest::parse(b"POST /files/empty HTTP/1.1\r\n\r\n").unwrap();
    assert!(post.body.is_none());
    match route(&post, Some(b"d")) {
        Ok(Action::WriteFile(p, b)) => {
            assert_eq!(p, b"d/empty".to_vec());
            assert!(b.is_empty());
        }
        _ => panic!("expected a write"),
    }
    let r = get_file_response(Some(b""));
    assert_eq!(
        text(&r),
        "HTTP/1.1 200 OK\r\nContent-Type: application/octet-stream\r\nContent-Length: 0\r\n\r\n"
    );
}

#[test]
fn file_missing_is_not_found() {
    assert_eq!(get_file_response(None), b"HTTP/1.1 404 Not Found\r\n\r\n".to_vec());
}

#[test]
fn files_without_directory_is_refused() {
    let get = HttpRequest::parse(b"GET /files/a HTTP/1.1\r\n\r\n").unwrap();
    assert!(matches!(route(&get, None), Err(RouteError::NoDirectory)));
    assert!(matches!(next_step(b"GET /files/a HTTP/1.1\r\n\r\n", false, None), Step::Abandon));
}

#[test]
fn user_agent_echoed() {
    let r = answer(b"GET /user-agent HTTP/1.1\r\nHost: localhost\r\nUser-Agent: test-agent/1.0\r\n\r\n", None);
    assert_eq!(
        text(&r),
        "HTTP/1.1 200 OK\r\nContent-Type: text/plain\r\nContent-Length: 14\r\n\r\ntest-agent/1.0"
    );
    assert_eq!(user_agent_response(b"test-agent/1.0"), r);
}

#[test]
fn user_agent_missing_is_refused() {
    let req = HttpRequest::parse(b"GET /user-agent HTTP/1.1\r\n\r\n").unwrap();
    assert!(matches!(route(&req, None), Err(RouteError::MissingUserAgent)));
}

#[test]
fn unknown_path_not_found_for_get_and_post() {
    assert_eq!(answer(b"GET /nonexistent HTTP/1.1\r\n\r\n", None), not_found_response());
    assert_eq!(answer(b"POST /nonexistent HTTP/1.1\r\n\r\n", None), not_found_response());
    assert_eq!(not_found_response(), b"HTTP/1.1 404 Not Found\r\n\r\n".to_vec());
    assert_eq!(answer(b"GET /echo HTTP/1.1\r\n\r\n", None), not_found_response());
}

#[test]
fn parse_full_request() {
    let req = HttpRequest::parse(
        b"POST /files/x HTTP/1.1\r\nHost: a\r\nX-Thing: one\r\nx-thing: two\r\nContent-Length: 4\r\n\r\nbodyEXTRA",
    )
    .unwrap();
    assert_eq!(req.method, HttpMethod::Post);
    assert_eq!(req.path, b"/files/x".to_vec());
    assert_eq!(req.version, b"HTTP/1.1".to_vec());
    assert_eq!(req.header(b"host"), Some(&b"a".to_vec()));
    assert_eq!(req.header(b"x-thing"), Some(&b"two".to_vec()));
    assert_eq!(req.header(b"Host"), None);
    assert_eq!(req.body, Some(b"body".to_vec()));
}

#[test]
fn parse_header_value_splits_at_first_separator() {
    let req = HttpRequest::parse(b"GET / HTTP/1.1\r\nX-Time: 12: 30\r\n\r\n").unwrap();
    assert_eq!(req.header(b"x-time"), Some(&b"12: 30".to_vec()));
}

#[test]
fn parse_request_line_whitespace() {
    let req = HttpRequest::parse(b"  GET \t /a   HTTP/1.1  extra\r\n\r\n").unwrap();
    assert_eq!(req.method, HttpMethod::Get);
    assert_eq!(req.path, b"/a".to_vec());
    assert_eq!(req.version, b"HTTP/1.1".to_vec());
}

#[test]
fn parse_errors() {
    assert_eq!(HttpRequest::parse(b"GET / HTTP/1.1\r\n").err(), Some(ParseError::Incomplete));
    assert_eq!(HttpRequest::parse(b"").err(), Some(ParseError::Incomplete));
    assert_eq!(HttpRequest::parse(b"GET /\r\n\r\n").err(), Some(ParseError::Malformed));
    assert_eq!(HttpRequest::parse(b"\r\n\r\n").err(), Some(ParseError::Malformed));
    assert_eq!(
        HttpRequest::parse(b"GET / HTTP/1.1\r\nBroken\r\n\r\n").err(),
        Some(ParseError::Malformed)
    );
    assert_eq!(
        HttpRequest::parse(b"PUT / HTTP/1.1\r\n\r\n").err(),
        Some(ParseError::UnsupportedMethod)
    );
    assert_eq!(
        HttpRequest::parse(b"get / HTTP/1.1\r\n\r\n").err(),
        Some(ParseError::UnsupportedMethod)
    );
    assert_eq!(
        HttpRequest::parse(b"POST / HTTP/1.1\r\nContent-Length: ten\r\n\r\n").err(),
        Some(ParseError::BadContentLength)
    );
    assert_eq!(
        HttpRequest::parse(b"POST / HTTP/1.1\r\nContent-Length: 99999999999999999999999\r\n\r\n").err(),
        Some(ParseError::BadContentLength)
    );
    assert_eq!(
        HttpRequest::parse(b"POST / HTTP/1.1\r\nContent-Length: 10\r\n\r\nshort").err(),
        Some(ParseError::Incomplete)
    );
}

#[test]
fn zero_content_length_means_no_body() {
    let req = HttpRequest::parse(b"POST / HTTP/1.1\r\nContent-Length: 0\r\n\r\n").unwrap();
    assert!(req.body.is_none());
}

#[test]
fn worker_steps() {
    assert!(matches!(next_step(b"GET / HTTP/1.1\r\n", false, None), Step::ReadMore));
    assert!(matches!(next_step(b"GET / HTTP/1.1\r\n", true, None), Step::Abandon));
    assert!(matches!(next_step(b"BREW / HTTP/1.1\r\n\r\n", false, None), Step::Abandon));
    assert!(matches!(
        next_step(b"GET /files/f HTTP/1.1\r\n\r\n", false, Some(b"/srv")),
        Step::Perform(Action::ReadFile(_))
    ));
}

#[test]
fn decimal_formatting_and_parsing() {
    let mut out = b"n=".to_vec();
    push_decimal(&mut out, 0);
    assert_eq!(out, b"n=0".to_vec());
    let mut out = Vec::new();
    push_decimal(&mut out, 1234567890);
    assert_eq!(out, b"1234567890".to_vec());
    let mut out = Vec::new();
    push_decimal(&mut out, usize::MAX);
    assert_eq!(out, usize::MAX.to_string().into_bytes());
    assert_eq!(parse_decimal(b"15"), Some(15));
    assert_eq!(parse_decimal(b"007"), Some(7));
    assert_eq!(parse_decimal(usize::MAX.to_string().as_bytes()), Some(usize::MAX));
    assert_eq!(parse_decimal(b""), None);
    assert_eq!(parse_decimal(b"-1"), None);
    assert_eq!(parse_decimal(b"1 "), None);
    assert_eq!(parse_decimal(b"18446744073709551616"), None);
}

#[test]
fn content_length_accepts_plus_sign() {
    assert_eq!(parse_length(b"+4"), Some(4));
    assert_eq!(parse_length(b"4"), Some(4));
    assert_eq!(parse_length(b"+"), None);
    assert_eq!(parse_length(b"++4"), None);
    assert_eq!(parse_length(b" 4"), None);
    let req = HttpRequest::parse(b"POST / HTTP/1.1\r\ncontent-length: +2\r\n\r\nok").unwrap();
    assert_eq!(req.body, Some(b"ok".to_vec()));
}
