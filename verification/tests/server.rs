use ptodd::logger::{LogLevel, SimpleLogger};
use ptodd::server::request::{Request, RequestMethod};
use ptodd::server::{compose_response, plan_response, route};
use ptodd::server::error::Error;

fn lines(raw: &[&str]) -> Vec<String> {
    raw.iter().map(|s| s.to_string()).collect()
}

#[test]
fn parse_accepts_a_well_formed_request_line() {
    let request = Request::parse(&lines(&["GET / HTTP/1.1"])).unwrap();
    assert_eq!(request.method, RequestMethod::Get);
}

#[test]
fn parse_rejects_the_older_protocol_version() {
    let err = Request::parse(&lines(&["GET / HTTP/1.0"])).unwrap_err();
    match err {
        Error::InvalidRequest(msg) => {
            assert_eq!(msg, "unsupported HTTP version: expected 'HTTP/1.1', got 'HTTP/1.0'")
        },
        other => panic!("unexpected error: {:?}", other),
    }
}

#[test]
fn parse_rejects_an_unknown_method_naming_it() {
    let err = Request::parse(&lines(&["FOO / HTTP/1.1"])).unwrap_err();
    match err {
        Error::InvalidRequest(msg) => assert_eq!(msg, "invalid method: FOO"),
        other => panic!("unexpected error: {:?}", other),
    }
}

#[test]
fn parse_rejects_a_single_token_line() {
    let err = Request::parse(&lines(&["GET"])).unwrap_err();
    match err {
        Error::InvalidRequest(msg) => {
            assert_eq!(msg, "control data: expected 3 parts, got 1")
        },
        other => panic!("unexpected error: {:?}", other),
    }
}

#[test]
fn parse_rejects_an_empty_request() {
    let err = Request::parse(&lines(&[])).unwrap_err();
    match err {
        Error::InvalidRequest(msg) => assert_eq!(msg, "cannot parse empty request"),
        other => panic!("unexpected error: {:?}", other),
    }
}

#[test]
fn parse_accepts_every_method() {
    for (token, method) in [
        ("GET", RequestMethod::Get),
        ("HEAD", RequestMethod::Head),
        ("POST", RequestMethod::Post),
        ("PUT", RequestMethod::Put),
        ("DELETE", RequestMethod::Delete),
        ("CONNECT", RequestMethod::Connect),
        ("OPTIONS", RequestMethod::Options),
        ("TRACE", RequestMethod::Trace),
    ] {
        let line = format!("{} / HTTP/1.1", token);
        let request = Request::parse(&lines(&[line.as_str()])).unwrap();
        assert_eq!(request.method, method);
    }
}

#[test]
fn root_request_is_served() {
    let plan = plan_response(&lines(&["GET / HTTP/1.1", "Host: localhost"])).unwrap().unwrap();
    assert_eq!(plan.status_line, "HTTP/1.1 200 OK");
    assert_eq!(plan.filename, "hello.html");
    assert!(!plan.sleep);
}

#[test]
fn sleepy_request_is_served_after_a_stall() {
    let plan = plan_response(&lines(&["GET /sleep HTTP/1.1"])).unwrap().unwrap();
    assert_eq!(plan.status_line, "HTTP/1.1 200 OK");
    assert_eq!(plan.filename, "hello.html");
    assert!(plan.sleep);
}

#[test]
fn any_other_request_gets_not_found() {
    let plan = plan_response(&lines(&["GET /missing HTTP/1.1"])).unwrap().unwrap();
    assert_eq!(plan.status_line, "HTTP/1.1 404 NOT FOUND");
    assert_eq!(plan.filename, "404.html");
    assert!(!plan.sleep);

    let plan = plan_response(&lines(&["POST / HTTP/1.1"])).unwrap().unwrap();
    assert_eq!(plan.status_line, "HTTP/1.1 404 NOT FOUND");
}

#[test]
fn malformed_request_line_gets_no_plan() {
    assert!(plan_response(&lines(&["GET / HTTP/1.0"])).is_err());
}

#[test]
fn an_aborted_connection_is_answered_nothing_and_is_no_error() {
    assert_eq!(plan_response(&lines(&[])), Ok(None));
}

#[test]
fn response_carries_the_body_length_in_bytes() {
    let response = compose_response(&"HTTP/1.1 200 OK".to_string(), &"hello".to_string());
    assert_eq!(response, "HTTP/1.1 200 OK\r\nContent-Length: 5\r\n\r\nhello");

    // A multi-byte character counts by its bytes, not its characters.
    let response = compose_response(&"HTTP/1.1 200 OK".to_string(), &"é".to_string());
    assert_eq!(response, "HTTP/1.1 200 OK\r\nContent-Length: 2\r\n\r\né");

    let response = compose_response(&"HTTP/1.1 404 NOT FOUND".to_string(), &"".to_string());
    assert_eq!(response, "HTTP/1.1 404 NOT FOUND\r\nContent-Length: 0\r\n\r\n");
}

#[test]
fn route_matches_the_whole_line_only() {
    let plan = route(&"GET / HTTP/1.1 ".to_string());
    assert_eq!(plan.status_line, "HTTP/1.1 404 NOT FOUND");
}

#[test]
fn logger_passes_levels_up_to_the_configured_one() {
    let logger = SimpleLogger::new(LogLevel::Info);
    assert!(logger.enabled(LogLevel::Error));
    assert!(logger.enabled(LogLevel::Warn));
    assert!(logger.enabled(LogLevel::Info));
    assert!(!logger.enabled(LogLevel::Debug));
    assert!(!logger.enabled(LogLevel::Trace));
}
