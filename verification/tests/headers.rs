use hyper::header::{HeaderMap, HeaderName, HeaderValue};
use hyper_reverse_proxy::{
    create_proxied_response, hop_headers, remove_connection_headers, remove_hop_headers, Response,
};

fn headers(pairs: &[(&'static str, &'static [u8])]) -> HeaderMap {
    let mut map = HeaderMap::new();
    for (name, value) in pairs {
        map.append(*name, HeaderValue::from_bytes(value).unwrap());
    }
    map
}

fn names(map: &HeaderMap) -> Vec<String> {
    let mut names: Vec<String> = map.keys().map(|name| name.to_string()).collect();
    names.sort();
    names
}

#[test]
fn hop_headers_are_these_nine() {
    assert_eq!(
        hop_headers(),
        [
            "connection",
            "te",
            "trailer",
            "keep-alive",
            "proxy-connection",
            "proxy-authenticate",
            "proxy-authorization",
            "transfer-encoding",
            "upgrade",
        ]
    );
}

#[test]
fn hop_headers_are_header_names() {
    for name in hop_headers() {
        assert_eq!(HeaderName::from_static(name).as_str(), name);
    }
}

#[test]
fn hop_headers_are_removed() {
    let mut map = HeaderMap::new();
    for name in hop_headers() {
        map.append(name, HeaderValue::from_static("a"));
        map.append(name, HeaderValue::from_static("b"));
    }
    map.append("x-kept", HeaderValue::from_static("1"));
    map.append("x-kept", HeaderValue::from_static("2"));
    remove_hop_headers(&mut map);
    assert_eq!(names(&map), ["x-kept"]);
    let values: Vec<&HeaderValue> = map.get_all("x-kept").iter().collect();
    assert_eq!(values, ["1", "2"]);
}

#[test]
fn headers_listed_in_connection_are_removed() {
    let mut map = headers(&[
        ("connection", b"X-Foo, close ,\tx-BAR\t,, x y, \"x-quoted\""),
        ("x-foo", b"1"),
        ("x-foo", b"2"),
        ("x-bar", b"3"),
        ("x-baz", b"4"),
        ("x", b"5"),
        ("x-quoted", b"6"),
    ]);
    remove_connection_headers(&mut map);
    assert_eq!(names(&map), ["connection", "x", "x-baz", "x-quoted"]);
}

#[test]
fn every_connection_header_counts() {
    let mut map = headers(&[
        ("connection", b"x-foo"),
        ("connection", b"x-bar"),
        ("x-foo", b"1"),
        ("x-bar", b"2"),
        ("x-baz", b"3"),
    ]);
    remove_connection_headers(&mut map);
    assert_eq!(names(&map), ["connection", "x-baz"]);
}

#[test]
fn opaque_bytes_in_connection_hide_nothing() {
    let mut map = headers(&[
        ("connection", b"\xe9, x-foo, x-b\xffr"),
        ("x-foo", b"1"),
        ("x-bar", b"2"),
    ]);
    remove_connection_headers(&mut map);
    assert_eq!(names(&map), ["connection", "x-bar"]);
}

#[test]
fn long_names_in_connection_count() {
    let name = "x".repeat(100);
    let mut map = HeaderMap::new();
    map.insert(
        HeaderName::from_bytes(name.as_bytes()).unwrap(),
        HeaderValue::from_static("1"),
    );
    map.insert("connection", HeaderValue::from_str(&name.to_uppercase()).unwrap());
    remove_connection_headers(&mut map);
    assert_eq!(names(&map), ["connection"]);
}

#[test]
fn responses_are_stripped_and_else_unchanged() {
    let response = Response {
        status: 404,
        headers: headers(&[
            ("connection", b"x-foo"),
            ("x-foo", b"1"),
            ("keep-alive", b"timeout=5"),
            ("transfer-encoding", b"chunked"),
            ("set-cookie", b"a=1"),
            ("set-cookie", b"b=2"),
            ("x-opaque", b"\xff"),
        ]),
        body: "body",
    };
    let proxied = create_proxied_response(response);
    assert_eq!(proxied.status, 404);
    assert_eq!(proxied.body, "body");
    assert_eq!(names(&proxied.headers), ["set-cookie", "x-opaque"]);
    let cookies: Vec<&HeaderValue> = proxied.headers.get_all("set-cookie").iter().collect();
    assert_eq!(cookies, ["a=1", "b=2"]);
    assert_eq!(proxied.headers["x-opaque"].as_bytes(), b"\xff");
}

#[test]
fn stripping_twice_is_stripping_once() {
    let response = Response {
        status: 200,
        headers: headers(&[("connection", b"x-foo"), ("x-foo", b"1"), ("x-bar", b"2")]),
        body: (),
    };
    let once = create_proxied_response(response);
    let headers_once = once.headers.clone();
    let twice = create_proxied_response(once);
    assert_eq!(twice.headers, headers_once);
    assert_eq!(names(&twice.headers), ["x-bar"]);
}
