use hyper::header::{HeaderMap, HeaderValue};
use hyper_reverse_proxy::get_upgrade_type;
use hyper_reverse_proxy::upgrade::readable_upgrade;

fn headers(pairs: &[(&'static str, &'static [u8])]) -> HeaderMap {
    let mut map = HeaderMap::new();
    for (name, value) in pairs {
        map.append(*name, HeaderValue::from_bytes(value).unwrap());
    }
    map
}

fn upgrade(pairs: &[(&'static str, &'static [u8])]) -> Option<String> {
    let map = headers(pairs);
    assert!(readable_upgrade(&map));
    get_upgrade_type(&map)
}

#[test]
fn upgrade_needs_both_headers() {
    assert_eq!(upgrade(&[]), None);
    assert_eq!(upgrade(&[("upgrade", b"websocket")]), None);
    assert_eq!(upgrade(&[("connection", b"upgrade")]), None);
    assert_eq!(
        upgrade(&[("connection", b"upgrade"), ("upgrade", b"websocket")]),
        Some("websocket".to_string())
    );
}

#[test]
fn upgrade_is_found_in_any_case_among_other_options() {
    assert_eq!(
        upgrade(&[("connection", b"keep-alive,\t UpGrade "), ("upgrade", b"WebSocket")]),
        Some("websocket".to_string())
    );
    assert_eq!(
        upgrade(&[("connection", b"keep-alive, upgraded"), ("upgrade", b"WebSocket")]),
        None
    );
    assert_eq!(
        upgrade(&[("connection", b"up grade"), ("upgrade", b"WebSocket")]),
        None
    );
}

#[test]
fn the_first_values_count() {
    assert_eq!(
        upgrade(&[
            ("connection", b"close"),
            ("connection", b"upgrade"),
            ("upgrade", b"websocket"),
        ]),
        None
    );
    assert_eq!(
        upgrade(&[
            ("connection", b"upgrade"),
            ("upgrade", b"H2C, TLS/1.0"),
            ("upgrade", b"websocket"),
        ]),
        Some("h2c, tls/1.0".to_string())
    );
}

#[test]
fn unreadable_headers_are_found() {
    assert!(!readable_upgrade(&headers(&[("connection", b"\xff")])));
    assert!(!readable_upgrade(&headers(&[
        ("connection", b"upgrade"),
        ("upgrade", b"\xff"),
    ])));
    assert!(readable_upgrade(&headers(&[
        ("connection", b"close"),
        ("upgrade", b"\xff"),
    ])));
    assert!(readable_upgrade(&headers(&[
        ("connection", b"close"),
        ("connection", b"\xff"),
    ])));
}
