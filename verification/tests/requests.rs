use hyper::header::{HeaderMap, HeaderName, HeaderValue};
use hyper_reverse_proxy::header_map::can_take;
use hyper_reverse_proxy::proxy::{can_proxy, can_proxy_to};
use hyper_reverse_proxy::{
    create_proxied_request, create_proxied_request_with, get_upgrade_type, ProxyError, Request, Uri,
};

const BACKEND: &str = "http://backend.example:8080";

fn request(pairs: &[(&'static str, &'static [u8])]) -> Request<&'static str> {
    let mut headers = HeaderMap::new();
    for (name, value) in pairs {
        headers.append(*name, HeaderValue::from_bytes(value).unwrap());
    }
    Request {
        uri: Uri {
            scheme: None,
            authority: None,
            host: None,
            path: "/foo".to_string(),
            query: Some("x=1".to_string()),
        },
        headers,
        body: "body",
    }
}

fn proxied(pairs: &[(&'static str, &'static [u8])]) -> Request<&'static str> {
    let request = request(pairs);
    let upgrade = get_upgrade_type(&request.headers);
    assert!(can_proxy(BACKEND, &request, upgrade.as_ref()));
    create_proxied_request("10.0.0.1", BACKEND, request, upgrade.as_ref())
        .unwrap()
        .unwrap()
}

fn values(request: &Request<&'static str>, name: &str) -> Vec<String> {
    request
        .headers
        .get_all(name)
        .iter()
        .map(|v| v.to_str().unwrap().to_string())
        .collect()
}

fn names(map: &HeaderMap) -> Vec<String> {
    let mut names: Vec<String> = map.keys().map(|name| name.to_string()).collect();
    names.sort();
    names
}

fn target(host: Option<&str>) -> Uri {
    Uri {
        scheme: Some("http".to_string()),
        authority: host.map(|h| h.to_string()),
        host: host.map(|h| h.to_string()),
        path: "/".to_string(),
        query: None,
    }
}

#[test]
fn request_goes_to_the_backend() {
    let sent = proxied(&[("host", b"proxy.example"), ("accept", b"*/*")]);
    assert_eq!(sent.uri.scheme.as_deref(), Some("http"));
    assert_eq!(sent.uri.authority.as_deref(), Some("backend.example:8080"));
    assert_eq!(sent.uri.host.as_deref(), Some("backend.example"));
    assert_eq!(sent.uri.path, "/foo");
    assert_eq!(sent.uri.query.as_deref(), Some("x=1"));
    assert_eq!(sent.body, "body");
    assert_eq!(names(&sent.headers), ["accept", "host", "x-forwarded-for"]);
    assert_eq!(values(&sent, "host"), ["backend.example"]);
    assert_eq!(values(&sent, "accept"), ["*/*"]);
}

#[test]
fn client_becomes_the_forwarding_list() {
    assert_eq!(values(&proxied(&[]), "x-forwarded-for"), ["10.0.0.1"]);
}

#[test]
fn client_is_added_to_the_forwarding_list() {
    assert_eq!(
        values(
            &proxied(&[("x-forwarded-for", b"192.0.2.1, 192.0.2.2")]),
            "x-forwarded-for"
        ),
        ["192.0.2.1, 192.0.2.2, 10.0.0.1"]
    );
}

#[test]
fn no_forwarding_address_is_lost() {
    assert_eq!(
        values(
            &proxied(&[
                ("x-forwarded-for", b"192.0.2.1"),
                ("x-forwarded-for", b"192.0.2.2"),
            ]),
            "x-forwarded-for"
        ),
        ["192.0.2.1, 192.0.2.2, 10.0.0.1"]
    );
    assert_eq!(
        values(
            &proxied(&[
                ("x-forwarded-for", b""),
                ("x-forwarded-for", b"192.0.2.1, 192.0.2.2"),
                ("x-forwarded-for", b"192.0.2.3"),
            ]),
            "x-forwarded-for"
        ),
        [", 192.0.2.1, 192.0.2.2, 192.0.2.3, 10.0.0.1"]
    );
}

#[test]
fn forwarding_addresses_accumulate_along_a_chain() {
    let first = proxied(&[]);
    assert!(can_proxy(BACKEND, &first, None));
    let second = create_proxied_request("10.0.0.2", BACKEND, first, None)
        .unwrap()
        .unwrap();
    assert_eq!(values(&second, "x-forwarded-for"), ["10.0.0.1, 10.0.0.2"]);
}

#[test]
fn forwarding_addresses_beyond_ascii_are_kept() {
    let sent = proxied(&[("x-forwarded-for", "\u{e9}".as_bytes())]);
    assert_eq!(
        sent.headers["x-forwarded-for"].as_bytes(),
        "\u{e9}, 10.0.0.1".as_bytes()
    );
    let sent = proxied(&[("x-forwarded-for", b"192.0.2.1"), ("x-forwarded-for", b"\xff")]);
    assert_eq!(
        sent.headers["x-forwarded-for"].as_bytes(),
        b"192.0.2.1, \xff, 10.0.0.1"
    );
    assert!(!can_proxy(BACKEND, &sent, None));
}

#[test]
fn hop_by_hop_headers_are_not_forwarded() {
    let sent = proxied(&[
        ("connection", b"x-foo, keep-alive"),
        ("x-foo", b"1"),
        ("keep-alive", b"timeout=5"),
        ("proxy-authorization", b"Basic x"),
        ("te", b"gzip"),
        ("upgrade", b"websocket"),
        ("x-bar", b"2"),
    ]);
    assert_eq!(names(&sent.headers), ["host", "x-bar", "x-forwarded-for"]);
}

#[test]
fn set_headers_stay_when_connection_lists_them() {
    let sent = proxied(&[
        ("connection", b"host, x-forwarded-for"),
        ("host", b"proxy.example"),
        ("x-forwarded-for", b"192.0.2.1"),
    ]);
    assert_eq!(values(&sent, "host"), ["backend.example"]);
    assert_eq!(values(&sent, "x-forwarded-for"), ["10.0.0.1"]);
}

#[test]
fn readiness_for_trailers_is_passed_on() {
    assert_eq!(values(&proxied(&[("te", b"gzip, Trailers")]), "te"), ["trailers"]);
    assert_eq!(
        values(&proxied(&[("te", b"gzip"), ("te", b"trailers")]), "te"),
        Vec::<String>::new()
    );
}

#[test]
fn backend_is_asked_for_the_same_upgrade() {
    let sent = proxied(&[("connection", b"Upgrade"), ("upgrade", b"WebSocket")]);
    assert_eq!(values(&sent, "connection"), ["UPGRADE"]);
    assert_eq!(values(&sent, "upgrade"), ["websocket"]);
    assert_eq!(get_upgrade_type(&sent.headers), Some("websocket".to_string()));
}

#[test]
fn proxied_request_can_be_proxied_again() {
    let sent = proxied(&[
        ("connection", b"Upgrade"),
        ("upgrade", b"WebSocket"),
        ("te", b"trailers"),
    ]);
    let upgrade = get_upgrade_type(&sent.headers);
    assert!(can_proxy(BACKEND, &sent, upgrade.as_ref()));
}

#[test]
fn address_that_is_no_uri_is_refused() {
    let request = request(&[]);
    assert!(can_proxy("http://back end", &request, None));
    let refused = create_proxied_request("10.0.0.1", "http://back end", request, None);
    assert!(matches!(refused, Some(Err(ProxyError::InvalidUri(_)))));
}

#[test]
fn error_of_the_parser_is_carried() {
    for text in ["http://back end", "http://", "http://user@/", ""] {
        let parsed = text.parse::<hyper::Uri>().map(|_| target(None));
        let reason = parsed.as_ref().unwrap_err().to_string();
        assert!(can_proxy_to(&parsed, &request(&[]), None));
        match create_proxied_request_with("10.0.0.1", parsed, request(&[]), None) {
            Some(Err(ProxyError::InvalidUri(err))) => assert_eq!(err.to_string(), reason),
            _ => panic!("the text was taken for a URI"),
        }
    }
}

#[test]
fn errors_of_the_parser_differ() {
    for (address, reason) in [
        ("http://back end", "invalid uri character"),
        ("http://user@", "invalid authority"),
        ("backend.example", "invalid format"),
        ("a".repeat(70_000).as_str(), "uri too long"),
    ] {
        match create_proxied_request("10.0.0.1", address, request(&[]), None) {
            Some(Err(err)) => assert_eq!(err.message(), reason),
            _ => panic!("the address was taken for a URI"),
        }
    }
}

#[test]
fn client_that_is_no_header_value_is_refused() {
    for first in [None, Some("192.0.2.1")] {
        let mut request = request(&[]);
        if let Some(address) = first {
            request
                .headers
                .insert("x-forwarded-for", HeaderValue::from_static(address));
        }
        assert!(can_proxy(BACKEND, &request, None));
        let refused = create_proxied_request("10.0.0.1\n", BACKEND, request, None);
        assert!(matches!(refused, Some(Err(ProxyError::ForwardHeaderError))));
    }
}

#[test]
fn host_that_is_no_header_value_is_refused() {
    let request = request(&[]);
    let parsed = Ok(target(Some("back\nend")));
    assert!(can_proxy_to(&parsed, &request, None));
    let refused = create_proxied_request_with("10.0.0.1", parsed, request, None);
    assert!(matches!(refused, Some(Err(ProxyError::ForwardHeaderError))));
}

#[test]
fn host_beyond_ascii_is_written_in_utf8() {
    let parsed = Ok(target(Some("b\u{e4}ckend")));
    let sent = create_proxied_request_with("10.0.0.1", parsed, request(&[]), None)
        .unwrap()
        .unwrap();
    assert_eq!(sent.headers["host"].as_bytes(), "b\u{e4}ckend".as_bytes());
    assert_eq!(sent.uri, target(Some("b\u{e4}ckend")));
}

#[test]
fn address_without_host_cannot_be_proxied_to() {
    assert!(!can_proxy("", &request(&[]), None));
    assert!(!can_proxy_to(&Ok(target(None)), &request(&[]), None));
}

#[test]
fn unreadable_headers_cannot_be_proxied() {
    assert!(!can_proxy(BACKEND, &request(&[("te", b"\xff")]), None));
    assert!(!can_proxy("http://back end", &request(&[("te", b"\xff")]), None));
    assert!(!can_proxy(BACKEND, &request(&[("x-forwarded-for", b"\xff")]), None));
    assert!(can_proxy(
        BACKEND,
        &request(&[("connection", b"x-forwarded-for"), ("x-forwarded-for", b"\xff")]),
        None
    ));
    let protocol = "web\nsocket".to_string();
    assert!(!can_proxy(BACKEND, &request(&[]), Some(&protocol)));
}

/// A request with that many header names.
fn large_request(count: usize) -> Request<&'static str> {
    let mut request = request(&[]);
    for i in 0..count {
        request.headers.insert(
            HeaderName::from_bytes(format!("x-{}", i).as_bytes()).unwrap(),
            HeaderValue::from_static("1"),
        );
    }
    request
}

#[test]
fn small_requests_certainly_have_room() {
    assert!(can_take(&large_request(6549).headers, 5));
    assert!(!can_take(&large_request(6550).headers, 5));
    assert!(can_take(&large_request(6552).headers, 2));
    assert!(!can_take(&large_request(6553).headers, 2));
    assert!(!can_take(&HeaderMap::new(), 6555));
}

#[test]
fn large_requests_are_proxied() {
    for count in [6549, 6550, 6554, 10_000, 20_000] {
        let request = large_request(count);
        assert!(can_proxy(BACKEND, &request, None));
        let sent = create_proxied_request("10.0.0.1", BACKEND, request, None)
            .unwrap()
            .unwrap();
        assert_eq!(sent.headers.keys_len(), count + 2);
        assert_eq!(values(&sent, "x-forwarded-for"), ["10.0.0.1"]);
    }
}

#[test]
fn full_header_map_takes_no_more() {
    let request = large_request(24_576);
    assert!(can_proxy(BACKEND, &request, None));
    assert!(create_proxied_request("10.0.0.1", BACKEND, request, None).is_none());

    let request = large_request(24_576);
    let refused = create_proxied_request("10.0.0.1", "http://back end", request, None);
    assert!(matches!(refused, Some(Err(ProxyError::InvalidUri(_)))));
}
