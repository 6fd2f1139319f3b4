use httptunnel::http_tunnel_codec::{got_http_request, HttpConnectRequest, HttpTunnelCodec};
use httptunnel::pattern::Allowlist;
use httptunnel::tunnel::{EstablishTunnelResult, TunnelCtx, TunnelTarget};

fn codec() -> HttpTunnelCodec {
    let allowlist = Allowlist::new("^(?i)([a-z]+)\\.(wikipedia|rust-lang)\\.org:443$")
        .expect("the allowlist pattern compiles");
    HttpTunnelCodec::new(TunnelCtx::new(1), allowlist)
}

#[test]
fn allowlisted_connect_is_admitted() {
    let r = codec().decode(b"CONNECT en.wikipedia.org:443 HTTP/1.1\r\n\r\n");
    let target = r.expect("decode succeeds").expect("request is complete");
    assert_eq!(target.target, "en.wikipedia.org:443");
    assert!(target.nugget.is_none());
    assert!(!target.has_nugget());
    assert_eq!(target.target_addr(), "en.wikipedia.org:443");
}

#[test]
fn forbidden_target_is_refused() {
    let r = codec().decode(b"CONNECT evil.example.com:443 HTTP/1.1\r\n\r\n");
    assert_eq!(r, Err(EstablishTunnelResult::Forbidden));
}

#[test]
fn non_connect_method_is_not_allowed() {
    let r = codec().decode(b"GET / HTTP/1.1\r\n\r\n");
    assert_eq!(r, Err(EstablishTunnelResult::OperationNotAllowed));
}

#[test]
fn incomplete_request_yields_nothing() {
    let r = codec().decode(b"CONNECT en.wikipedia.org:443 HTTP/1.1\r\n");
    assert_eq!(r, Ok(None));
}

#[test]
fn wrong_version_is_a_bad_request() {
    let r = codec().decode(b"CONNECT en.wikipedia.org:443 HTTP/1.0\r\n\r\n");
    assert_eq!(r, Err(EstablishTunnelResult::BadRequest));
}

#[test]
fn missing_port_is_a_bad_request() {
    let r = codec().decode(b"CONNECT en.wikipedia.org HTTP/1.1\r\n\r\n");
    assert_eq!(r, Err(EstablishTunnelResult::BadRequest));
}

#[test]
fn garbage_is_a_bad_request() {
    let r = codec().decode(b"\x01\x02garbage\r\n\r\n");
    assert_eq!(r, Err(EstablishTunnelResult::BadRequest));
}

#[test]
fn oversized_buffer_without_marker_is_a_bad_request() {
    let big = vec![b'A'; 16384];
    assert!(got_http_request(&big));
    let r = codec().decode(&big);
    assert_eq!(r, Err(EstablishTunnelResult::BadRequest));
}

#[test]
fn headers_after_the_request_line_are_accepted() {
    let r = codec().decode(
        b"CONNECT en.wikipedia.org:443 HTTP/1.1\r\nHost: en.wikipedia.org\r\nUser-Agent: x\r\n\r\n",
    );
    let target = r.expect("decode succeeds").expect("request is complete");
    assert_eq!(target.target, "en.wikipedia.org:443");
}

#[test]
fn parse_extracts_the_authority() {
    let req = HttpConnectRequest::parse(b"CONNECT host.example:8443 HTTP/1.1\r\n\r\n")
        .expect("well-formed request parses");
    assert_eq!(req.uri, "host.example:8443");
    assert!(req.nugget.is_none());
}

#[test]
fn parse_rejects_an_authority_with_a_non_numeric_port() {
    let r = HttpConnectRequest::parse(b"CONNECT host.example:https HTTP/1.1\r\n\r\n");
    assert_eq!(r.err(), Some(EstablishTunnelResult::BadRequest));
}

#[test]
fn parse_rejects_extra_tokens() {
    let r = HttpConnectRequest::parse(b"CONNECT a:1 b:2 HTTP/1.1\r\n\r\n");
    assert_eq!(r.err(), Some(EstablishTunnelResult::BadRequest));
}

#[test]
fn parse_is_case_sensitive_about_the_method() {
    let r = HttpConnectRequest::parse(b"connect host.example:443 HTTP/1.1\r\n\r\n");
    assert_eq!(r.err(), Some(EstablishTunnelResult::OperationNotAllowed));
}

#[test]
fn malformed_utf8_anywhere_is_a_bad_request() {
    // A well-formed request line does not save a head whose later bytes
    // are not valid UTF-8.
    let r = HttpConnectRequest::parse(b"CONNECT host.example:443 HTTP/1.1\r\n\xFF\r\n\r\n");
    assert_eq!(r.err(), Some(EstablishTunnelResult::BadRequest));
    let r = codec().decode(b"CONNECT en.wikipedia.org:443 HTTP/1.1\r\n\xFF\r\n\r\n");
    assert_eq!(r, Err(EstablishTunnelResult::BadRequest));
}

#[test]
fn non_ascii_header_bytes_are_refused() {
    // The head is held to printable ASCII and whitespace throughout.
    let r = codec().decode(
        b"CONNECT en.wikipedia.org:443 HTTP/1.1\r\nX-Name: caf\xC3\xA9\r\n\r\n",
    );
    assert_eq!(r, Err(EstablishTunnelResult::BadRequest));
    let r = codec().decode(b"CONNECT en.wikipedia.org:443 HTTP/1.1\r\n\x00\r\n\r\n");
    assert_eq!(r, Err(EstablishTunnelResult::BadRequest));
}

#[test]
fn a_bare_marker_is_a_bad_request() {
    let r = codec().decode(b"\r\n\r\n");
    assert_eq!(r, Err(EstablishTunnelResult::BadRequest));
}

#[test]
fn doubled_separator_spaces_are_a_bad_request() {
    let r = codec().decode(b"CONNECT  en.wikipedia.org:443 HTTP/1.1\r\n\r\n");
    assert_eq!(r, Err(EstablishTunnelResult::BadRequest));
}

#[test]
fn got_http_request_framing() {
    assert!(!got_http_request(b""));
    assert!(!got_http_request(b"CONNECT"));
    assert!(got_http_request(b"CONNECT a:1 HTTP/1.1\r\n\r\n"));
    assert!(!got_http_request(b"CONNECT a:1 HTTP/1.1\r\n\r\nmore"));
    assert!(got_http_request(&vec![b'x'; 16384]));
}

#[test]
fn responses_are_fixed_status_lines() {
    let c = codec();
    assert_eq!(
        c.encode(EstablishTunnelResult::Established),
        Some("HTTP/1.1 200 OK\r\n\r\n")
    );
    assert_eq!(c.encode(EstablishTunnelResult::OkWithNugget), None);
    assert_eq!(
        c.encode(EstablishTunnelResult::BadRequest),
        Some("HTTP/1.1 400 BAD_REQUEST\r\n\r\n")
    );
    assert_eq!(
        c.encode(EstablishTunnelResult::Forbidden),
        Some("HTTP/1.1 403 FORBIDDEN\r\n\r\n")
    );
    assert_eq!(
        c.encode(EstablishTunnelResult::OperationNotAllowed),
        Some("HTTP/1.1 405 NOT_ALLOWED\r\n\r\n")
    );
    assert_eq!(
        c.encode(EstablishTunnelResult::RequestTimeout),
        Some("HTTP/1.1 408 TIMEOUT\r\n\r\n")
    );
    assert_eq!(
        c.encode(EstablishTunnelResult::TooManyRequests),
        Some("HTTP/1.1 429 TOO_MANY_REQUESTS\r\n\r\n")
    );
    assert_eq!(
        c.encode(EstablishTunnelResult::ServerError),
        Some("HTTP/1.1 500 SERVER_ERROR\r\n\r\n")
    );
    assert_eq!(
        c.encode(EstablishTunnelResult::BadGateway),
        Some("HTTP/1.1 502 BAD_GATEWAY\r\n\r\n")
    );
    assert_eq!(
        c.encode(EstablishTunnelResult::GatewayTimeout),
        Some("HTTP/1.1 504 GATEWAY_TIMEOUT\r\n\r\n")
    );
}

#[test]
fn case_insensitive_pattern_admits_mixed_case_host() {
    // The (?i) group makes the host part case-insensitive.
    let r = codec().decode(b"CONNECT de.wikipedia.org:443 HTTP/1.1\r\n\r\n");
    assert!(r.is_ok());
    let r = codec().decode(b"CONNECT en.wikipedia.org:80 HTTP/1.1\r\n\r\n");
    assert_eq!(r, Err(EstablishTunnelResult::Forbidden));
}
