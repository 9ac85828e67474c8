use hyper_reverse_proxy::{forward_uri, Request, Uri};

fn request(path: &str, query: Option<&str>) -> Request<()> {
    Request {
        uri: Uri {
            scheme: None,
            authority: None,
            host: None,
            path: path.to_string(),
            query: query.map(|q| q.to_string()),
        },
        headers: hyper::HeaderMap::new(),
        body: (),
    }
}

fn forwarded(forward_url: &str, path: &str, query: Option<&str>) -> String {
    forward_uri(forward_url, &request(path, query))
}

#[test]
fn path_is_appended_to_the_forwarding_address() {
    assert_eq!(
        forwarded("http://127.0.0.1:13901", "/target/first", None),
        "http://127.0.0.1:13901/target/first"
    );
    assert_eq!(
        forwarded("http://127.0.0.1:13902/base", "/target/second", None),
        "http://127.0.0.1:13902/base/target/second"
    );
}

#[test]
fn one_slash_at_the_end_is_dropped() {
    assert_eq!(forwarded("http://a/", "/foo", None), "http://a/foo");
    assert_eq!(forwarded("http://a/?x=1", "/foo", Some("x=2")), "http://a/foo?x=1");
    assert_eq!(forwarded("http://a?x=1", "/foo", Some("x=2")), "http://a/foo?x=1");
    assert_eq!(forwarded("http://a//", "/foo", None), "http://a//foo");
}

#[test]
fn empty_addresses_are_forwarded_as_they_are() {
    assert_eq!(forwarded("", "", None), "");
    assert_eq!(forwarded("/", "/foo", None), "/foo");
    assert_eq!(forwarded("?", "/foo", Some("")), "/foo");
}

#[test]
fn query_of_the_request_is_kept() {
    assert_eq!(
        forwarded("http://a", "/foo", Some("x=1&y&=&z=1=2")),
        "http://a/foo?x=1&y&=&z=1=2"
    );
    assert_eq!(forwarded("http://a?", "/foo", Some("x")), "http://a/foo?x");
    assert_eq!(forwarded("http://a", "/foo", Some("")), "http://a/foo");
}

#[test]
fn queries_are_merged() {
    assert_eq!(
        forwarded("http://a?x=1&y=2", "/foo", Some("y=3&z=4&w")),
        "http://a/foo?x=1&y=2&z=4&w="
    );
}

#[test]
fn query_of_the_forwarding_address_wins() {
    assert_eq!(
        forwarded("http://a?x=1&y=2", "/foo", Some("y=3&x=4")),
        "http://a/foo?x=1&y=2"
    );
}

#[test]
fn queries_are_merged_key_by_key() {
    assert_eq!(
        forwarded("http://a?x=1&x&y=2", "/foo", Some("z=1&x=3&z&w=4=5&y&z=2")),
        "http://a/foo?x=1&x&y=2&z=1&z=&w=4&z=2"
    );
    assert_eq!(forwarded("http://a?x&", "/foo", Some("=1&x=2")), "http://a/foo?x");
}

#[test]
fn missing_query_counts_as_one_empty_item() {
    assert_eq!(forwarded("http://a?x=1", "/foo", None), "http://a/foo?x=1&=");
    assert_eq!(forwarded("http://a?x=1", "/foo", Some("")), "http://a/foo?x=1&=");
}

#[test]
fn ampersand_at_the_end_is_dropped() {
    assert_eq!(forwarded("http://a?x=1&", "/foo", None), "http://a/foo?x=1");
    assert_eq!(forwarded("http://a?x=1&&", "/foo", None), "http://a/foo?x=1&");
    assert_eq!(forwarded("http://a?&", "/foo", Some("")), "http://a/foo?");
    assert_eq!(
        forwarded("http://a?x=1&", "/foo", Some("y=2")),
        "http://a/foo?x=1&&y=2"
    );
}

#[test]
fn only_the_first_two_parts_of_an_address_and_of_an_item_count() {
    assert_eq!(forwarded("http://a?x=1?y=2", "/foo", Some("x")), "http://a/foo?x=1");
    assert_eq!(
        forwarded("http://a?x=1", "/foo", Some("y=2=3")),
        "http://a/foo?x=1&y=2"
    );
}

#[test]
fn text_beyond_ascii_is_forwarded() {
    assert_eq!(
        forwarded("http://\u{e4}/?\u{20ac}=1", "/\u{1f600}", Some("\u{20ac}=2&\u{e9}=3")),
        "http://\u{e4}/\u{1f600}?\u{20ac}=1&\u{e9}=3"
    );
}
