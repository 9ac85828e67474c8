//! The request that goes to the backend, and the response that goes back to the client.

use hyper::header::{HeaderMap, HeaderValue};
use hyper::http::uri::InvalidUri;
use vstd::prelude::*;
use vstd::set_lib::lemma_len_subset;
use vstd::utf8::{
    encode_utf8, encode_utf8_valid_utf8, is_ascii_chars, is_ascii_chars_encode_utf8, valid_utf8,
    valid_utf8_concat,
};

use crate::error::{ProxyError, ProxyErrorView};
use crate::forward::{forward_uri, forwarded_text};
use crate::header_map::{
    all_values, byte_strings, every_name_has_a_value, first_value, has_room, header_contents, HeaderContents,
    is_header_value, is_lower_name, is_value_byte, is_visible, lower_keeps_names, parse_value,
    try_insert,
};
use crate::hop::{
    end_to_end, hop_names, hop_names_are_lower, is_hop_by_hop, is_listed_in_connection,
    remove_hop_by_hop_headers,
};
use crate::message::{Request, RequestView, Response, ResponseView};
use crate::text::{byte_text, lists, lower, pieces, pieces_without_separator, trimmed};
use crate::upgrade::{
    first_value_lists, has_readable_upgrade, is_readable, lists_in_first_value, readable,
    upgrade_type,
};
use crate::uri::{parse_result, parse_uri, parsed_uri, Uri, UriView};

verus! {

/// Values that are joined to one list, with a comma and a blank between them.
pub open spec fn comma_list(values: Seq<Seq<u8>>) -> Seq<u8>
    decreases values.len(),
{
    if values.len() == 0 {
        Seq::empty()
    } else if values.len() == 1 {
        values[0]
    } else {
        comma_list(values.drop_last()) + encode_utf8(", "@) + values.last()
    }
}

/// The values of the `X-Forwarded-For` header, none where there is no such header.
pub open spec fn forwarding_values(headers: HeaderContents) -> Seq<Seq<u8>> {
    if headers.contains_key("x-forwarded-for"@) {
        headers["x-forwarded-for"@]
    } else {
        Seq::empty()
    }
}

/// `headers` with the address `client_ip` added to the list of forwarding addresses: the
/// `X-Forwarded-For` header has one value, which lists all that it had before, and then the
/// address.
pub open spec fn with_client(
    headers: HeaderContents,
    client_ip: Seq<char>,
) -> HeaderContents {
    let list = comma_list(forwarding_values(headers).push(encode_utf8(client_ip)));
    headers.insert("x-forwarded-for"@, seq![list])
}

/// `headers` with the headers that ask for a switch to the protocol `upgrade`, if there is one.
pub open spec fn with_upgrade(
    headers: HeaderContents,
    upgrade: Option<Seq<char>>,
) -> HeaderContents {
    match upgrade {
        Some(protocol) => headers.insert("upgrade"@, seq![encode_utf8(protocol)]).insert(
            "connection"@,
            seq![encode_utf8("UPGRADE"@)],
        ),
        None => headers,
    }
}

/// `headers` with the header that announces readiness for trailers, where `trailers` holds.
pub open spec fn with_trailers(
    headers: HeaderContents,
    trailers: bool,
) -> HeaderContents {
    if trailers {
        headers.insert("te"@, seq![encode_utf8("trailers"@)])
    } else {
        headers
    }
}

/// The headers of the proxied request, where `headers` are those of the request.
pub open spec fn proxied_headers(
    headers: HeaderContents,
    host: Seq<char>,
    upgrade: Option<Seq<char>>,
    client_ip: Seq<char>,
) -> HeaderContents {
    let kept = end_to_end(headers).insert("host"@, seq![encode_utf8(host)]);
    let trailers = first_value_lists(headers, "te"@, "trailers"@);
    with_client(with_upgrade(with_trailers(kept, trailers), upgrade), client_ip)
}

/// How many headers are set in the proxied request: the host and the list of forwarding
/// addresses, the readiness for trailers, and two that ask for a switch of protocols.
pub open spec fn set_count(headers: HeaderContents, upgrade: Option<Seq<char>>) -> nat {
    let trailers: nat = if first_value_lists(headers, "te"@, "trailers"@) {
        1
    } else {
        0
    };
    let switch: nat = if upgrade is Some {
        2
    } else {
        0
    };
    2 + trailers + switch
}

/// The request that is sent to `target` in place of `request`, which the client at `client_ip`
/// sent and which asks for a switch to `upgrade`. Where the target is no URI, what is wrong with
/// it is the error.
pub open spec fn proxied_request<B>(
    client_ip: Seq<char>,
    target: Result<UriView, InvalidUri>,
    request: RequestView<B>,
    upgrade: Option<Seq<char>>,
) -> Result<RequestView<B>, ProxyErrorView> {
    match target {
        Ok(uri) => {
            let host = uri.host->0;
            if is_header_value(encode_utf8(host)) && is_header_value(encode_utf8(client_ip)) {
                Ok(
                    RequestView {
                        uri,
                        headers: proxied_headers(request.headers, host, upgrade, client_ip),
                        body: request.body,
                    },
                )
            } else {
                Err(ProxyErrorView::ForwardHeaderError)
            }
        },
        Err(err) => Err(ProxyErrorView::InvalidUri(err)),
    }
}

/// Whether the first forwarding address is UTF-8, or there is none.
pub open spec fn has_utf8_forwarded_for(headers: HeaderContents) -> bool {
    headers.contains_key("x-forwarded-for"@) ==> valid_utf8(headers["x-forwarded-for"@][0])
}

/// Whether a request with these headers can be sent to `target`, be it that this is no URI. The
/// `TE` header reads as text; a URI has a host; and, where the host can stand in a header: the
/// protocol to switch to can stand in one too, and the first forwarding address that is passed
/// on is UTF-8.
pub open spec fn is_proxyable_to(
    target: Result<UriView, InvalidUri>,
    headers: HeaderContents,
    upgrade: Option<Seq<char>>,
) -> bool {
    &&& is_readable(headers, "te"@)
    &&& target matches Ok(uri) ==> {
        &&& uri.host is Some
        &&& is_header_value(encode_utf8(uri.host->0)) ==> {
            &&& upgrade matches Some(protocol) ==> is_header_value(encode_utf8(protocol))
            &&& has_utf8_forwarded_for(end_to_end(headers))
        }
    }
}

/// The URI that a request is forwarded to, or what is wrong with it where the forwarding address
/// and the request do not form one.
pub open spec fn target<B>(forward_url: Seq<char>, request: RequestView<B>) -> Result<
    UriView,
    InvalidUri,
> {
    parsed_uri(forwarded_text(forward_url, request.uri.path, request.uri.query))
}

/// The request that is sent to the backend at `forward_url` in place of `request`.
pub open spec fn forwarded_request<B>(
    client_ip: Seq<char>,
    forward_url: Seq<char>,
    request: RequestView<B>,
    upgrade: Option<Seq<char>>,
) -> Result<RequestView<B>, ProxyErrorView> {
    proxied_request(client_ip, target(forward_url, request), request, upgrade)
}

/// Whether a request can be forwarded to the backend at `forward_url`.
pub open spec fn is_proxyable<B>(
    forward_url: Seq<char>,
    request: RequestView<B>,
    upgrade: Option<Seq<char>>,
) -> bool {
    is_proxyable_to(target(forward_url, request), request.headers, upgrade)
}

/// The text of a string that may be missing.
pub open spec fn borrowed_text(s: Option<&String>) -> Option<Seq<char>> {
    match s {
        Some(t) => Some(t@),
        None => None,
    }
}

/// What a request, or the error in its place, holds.
pub open spec fn request_result<B>(r: Result<Request<B>, ProxyError>) -> Result<
    RequestView<B>,
    ProxyErrorView,
> {
    match r {
        Ok(request) => Ok(request@),
        Err(err) => Err(err@),
    }
}

/// `std::str::from_utf8`: whether the bytes are UTF-8. The text that they encode is not used.
#[verifier::external_body]
fn is_utf8(bytes: &[u8]) -> (r: bool)
    ensures
        r == valid_utf8(bytes@),
{
    std::str::from_utf8(bytes).is_ok()
}

/// The encoding of two texts in a row is that of the first, followed by that of the second.
pub proof fn encoding_of_concatenation(a: Seq<char>, b: Seq<char>)
    ensures
        encode_utf8(a + b) == encode_utf8(a) + encode_utf8(b),
    decreases a.len(),
{
    if a.len() == 0 {
        assert(a + b =~= b);
        assert(encode_utf8(a) + encode_utf8(b) =~= encode_utf8(b));
    } else {
        encoding_of_concatenation(a.drop_first(), b);
        assert((a + b).drop_first() =~= a.drop_first() + b);
        assert(encode_utf8(a + b) =~= encode_utf8(a) + encode_utf8(b));
    }
}

/// Values that stand in a row form a header value if and only if each of them does.
proof fn value_of_concatenation(a: Seq<u8>, b: Seq<u8>)
    ensures
        is_header_value(a + b) == (is_header_value(a) && is_header_value(b)),
{
    if is_header_value(a + b) {
        assert forall|i: int| 0 <= i < a.len() implies is_value_byte(
            #[trigger] a[i],
        ) by {
            assert((a + b)[i] == a[i]);
        }
        assert forall|i: int| 0 <= i < b.len() implies is_value_byte(
            #[trigger] b[i],
        ) by {
            assert((a + b)[a.len() + i] == b[i]);
        }
    }
}

/// The names of the two headers that are always set are header names in lower case, and not
/// those of hop-by-hop headers.
pub proof fn set_names_are_lower()
    ensures
        is_lower_name("host"@),
        is_lower_name("x-forwarded-for"@),
        !hop_names().contains("host"@),
        !hop_names().contains("x-forwarded-for"@),
        "host"@ != "x-forwarded-for"@,
{
    reveal_strlit("host");
    reveal_strlit("x-forwarded-for");
    reveal_strlit("connection");
    reveal_strlit("te");
    reveal_strlit("trailer");
    reveal_strlit("keep-alive");
    reveal_strlit("proxy-connection");
    reveal_strlit("proxy-authenticate");
    reveal_strlit("proxy-authorization");
    reveal_strlit("transfer-encoding");
    reveal_strlit("upgrade");
    assert(lower("host"@) =~= "host"@);
    assert(lower("x-forwarded-for"@) =~= "x-forwarded-for"@);
    assert forall|i: int| 0 <= i < hop_names().len() implies #[trigger] hop_names()[i] != "host"@
        && hop_names()[i] != "x-forwarded-for"@ by {
        let name = hop_names()[i];
        assert(name.len() != 4 && name.len() != 15 || name[0] != 'h' && name[0] != 'x');
    }
}

/// The bytes between two addresses of a list form a header value, and so do lists of header
/// values.
proof fn lists_are_values(values: Seq<Seq<u8>>)
    ensures
        is_header_value(encode_utf8(", "@)),
        (forall|i: int| 0 <= i < values.len() ==> is_header_value(#[trigger] values[i]))
            ==> is_header_value(comma_list(values)),
    decreases values.len(),
{
    reveal_strlit(", ");
    is_ascii_chars_encode_utf8(", "@);
    assert(is_header_value(encode_utf8(", "@)));
    if values.len() > 1 {
        lists_are_values(values.drop_last());
        value_of_concatenation(comma_list(values.drop_last()), encode_utf8(", "@));
        value_of_concatenation(
            comma_list(values.drop_last()) + encode_utf8(", "@),
            values.last(),
        );
    }
}

/// The list of forwarding addresses with the address `client_ip` added.
fn forwarding_list(headers: &HeaderMap<HeaderValue>, client_ip: &str) -> (r: Result<
    Vec<u8>,
    ProxyError,
>)
    ensures
        r is Ok <==> is_header_value(encode_utf8(client_ip@)),
        r matches Ok(list) ==> list@ == comma_list(
            forwarding_values(header_contents(*headers)).push(encode_utf8(client_ip@)),
        ) && is_header_value(list@),
        r matches Err(err) ==> err@ == ProxyErrorView::ForwardHeaderError,
{
    proof {
        set_names_are_lower();
    }
    let address: Vec<u8> = match parse_value(client_ip) {
        Ok(value) => value,
        Err(err) => {
            return Err(ProxyError::from(err));
        },
    };
    let values: Vec<Vec<u8>> = all_values(headers, "x-forwarded-for");
    let ghost lines = byte_strings(values@);
    assert(lines == forwarding_values(header_contents(*headers)));
    let mut list: Vec<u8> = Vec::new();
    let mut i: usize = 0;
    while i < values.len()
        invariant
            i <= values@.len() == lines.len(),
            lines == byte_strings(values@),
            list@ == comma_list(lines.take(i as int)) + if i > 0 {
                encode_utf8(", "@)
            } else {
                Seq::empty()
            },
        decreases values@.len() - i,
    {
        assert(lines[i as int] == values@[i as int]@);
        list.extend_from_slice(values[i].as_slice());
        list.extend_from_slice(", ".as_bytes());
        proof {
            assert(lines.take(i + 1).drop_last() =~= lines.take(i as int));
            assert(list@ =~= comma_list(lines.take(i + 1)) + encode_utf8(", "@));
        }
        i = i + 1;
    }
    list.extend_from_slice(address.as_slice());
    proof {
        let all = lines.push(address@);
        assert(lines.take(lines.len() as int) =~= lines);
        assert(all.drop_last() =~= lines);
        assert(list@ =~= comma_list(all));
        assert forall|j: int| 0 <= j < all.len() implies is_header_value(#[trigger] all[j]) by {
            if j < lines.len() {
                assert(lines[j] == values@[j]@);
            }
        }
        lists_are_values(all);
    }
    Ok(list)
}

/// Makes the response that goes back to the client: all of the backend's response but its
/// hop-by-hop headers.
pub fn create_proxied_response<B>(response: Response<B>) -> (r: Response<B>)
    ensures
        r@ == (ResponseView { headers: end_to_end(response@.headers), ..response@ }),
{
    let mut response: Response<B> = response;
    remove_hop_by_hop_headers(&mut response.headers);
    response
}

/// Whether a request can be sent to the target that was parsed.
pub fn can_proxy_to<B>(
    target: &Result<Uri, InvalidUri>,
    request: &Request<B>,
    upgrade_type: Option<&String>,
) -> (r: bool)
    ensures
        r == is_proxyable_to(
            parse_result(*target),
            request@.headers,
            borrowed_text(upgrade_type),
        ),
{
    proof {
        hop_names_are_lower();
        set_names_are_lower();
        assert(hop_names()[1] == "te"@);
    }
    if !readable(&request.headers, "te") {
        return false;
    }
    let uri: &Uri = match target {
        Ok(uri) => uri,
        Err(_) => {
            return true;
        },
    };
    match &uri.host {
        Some(host) => {
            if parse_value(host.as_str()).is_err() {
                return true;
            }
        },
        None => {
            return false;
        },
    }
    if let Some(protocol) = upgrade_type {
        if parse_value(protocol.as_str()).is_err() {
            return false;
        }
    }
    match first_value(&request.headers, "x-forwarded-for") {
        Some(first) => is_listed_in_connection(&request.headers, "x-forwarded-for") || is_utf8(
            first.as_slice(),
        ),
        None => true,
    }
}

/// Whether a request can be forwarded to the backend at `forward_url`.
pub fn can_proxy<B>(
    forward_url: &str,
    request: &Request<B>,
    upgrade_type: Option<&String>,
) -> (r: bool)
    ensures
        r == is_proxyable(forward_url@, request@, borrowed_text(upgrade_type)),
{
    let url: String = forward_uri(forward_url, request);
    can_proxy_to(&parse_uri(url.as_str()), request, upgrade_type)
}

/// Taking headers out makes no less room, and one insertion takes at most the place of one name.
proof fn room_is_kept(headers: HeaderContents, n: nat)
    ensures
        has_room(headers, n) ==> has_room(end_to_end(headers), n),
        forall|name: Seq<char>, values: Seq<Seq<u8>>|
            has_room(headers, n) && n > 0 ==> has_room(
                #[trigger] headers.insert(name, values),
                (n - 1) as nat,
            ),
{
    if has_room(headers, n) {
        lemma_len_subset(end_to_end(headers).dom(), headers.dom());
    }
}

/// Makes the request that goes to the target that was parsed in place of `request`, which the
/// client at `client_ip` sent and which asks for a switch to the protocol `upgrade_type`. There
/// is no result where the request's header map is too full to take the headers that are set.
pub fn create_proxied_request_with<B>(
    client_ip: &str,
    target: Result<Uri, InvalidUri>,
    request: Request<B>,
    upgrade_type: Option<&String>,
) -> (r: Option<Result<Request<B>, ProxyError>>)
    requires
        is_proxyable_to(parse_result(target), request@.headers, borrowed_text(upgrade_type)),
    ensures
        r matches Some(result) ==> request_result(result) == proxied_request(
            client_ip@,
            parse_result(target),
            request@,
            borrowed_text(upgrade_type),
        ),
        r is None ==> proxied_request(
            client_ip@,
            parse_result(target),
            request@,
            borrowed_text(upgrade_type),
        ) is Ok && !has_room(
            request@.headers,
            set_count(request@.headers, borrowed_text(upgrade_type)),
        ),
        target matches Err(err) ==> r == Some(
            Err::<Request<B>, ProxyError>(ProxyError::InvalidUri(err)),
        ),
{
    proof {
        hop_names_are_lower();
        set_names_are_lower();
        assert(hop_names()[0] == "connection"@);
        assert(hop_names()[1] == "te"@);
        assert(hop_names()[8] == "upgrade"@);
        reveal_strlit("trailers");
        reveal_strlit("UPGRADE");
        is_ascii_chars_encode_utf8("trailers"@);
        is_ascii_chars_encode_utf8("UPGRADE"@);
        assert(is_header_value(encode_utf8("trailers"@)));
        assert(is_header_value(encode_utf8("UPGRADE"@)));
    }
    let mut request: Request<B> = request;
    let ghost start = header_contents(request.headers);
    let contains_te_trailers_value: bool = lists_in_first_value(&request.headers, "te", "trailers");

    let uri: Uri = match target {
        Ok(uri) => uri,
        Err(err) => {
            return Some(Err(ProxyError::from(err)));
        },
    };
    let host_value: Vec<u8> = match &uri.host {
        Some(host) => match parse_value(host.as_str()) {
            Ok(value) => value,
            Err(err) => {
                return Some(Err(ProxyError::from(err)));
            },
        },
        None => {
            assert(false);
            Vec::new()
        },
    };

    remove_hop_by_hop_headers(&mut request.headers);
    let forwarding: Vec<u8> = match forwarding_list(&request.headers, client_ip) {
        Ok(list) => list,
        Err(err) => {
            return Some(Err(err));
        },
    };

    let ghost mut places: nat = set_count(start, borrowed_text(upgrade_type));
    proof {
        names_differ();
        room_is_kept(start, places);
        room_is_kept(header_contents(request.headers), places);
        places = (places - 1) as nat;
    }
    if try_insert(&mut request.headers, "host", host_value.as_slice()).is_err() {
        return None;
    }
    request.uri = uri;

    if contains_te_trailers_value {
        proof {
            room_is_kept(header_contents(request.headers), places);
            places = (places - 1) as nat;
        }
        if try_insert(&mut request.headers, "te", "trailers".as_bytes()).is_err() {
            return None;
        }
    }
    if let Some(value) = upgrade_type {
        proof {
            room_is_kept(header_contents(request.headers), places);
            places = (places - 1) as nat;
        }
        if try_insert(&mut request.headers, "upgrade", value.as_str().as_bytes()).is_err() {
            return None;
        }
        proof {
            room_is_kept(header_contents(request.headers), places);
            places = (places - 1) as nat;
        }
        if try_insert(&mut request.headers, "connection", "UPGRADE".as_bytes()).is_err() {
            return None;
        }
    }
    if try_insert(&mut request.headers, "x-forwarded-for", forwarding.as_slice()).is_err() {
        return None;
    }
    Some(Ok(request))
}

/// Makes the request that goes to the backend at `forward_url` in place of `request`, which the
/// client at `client_ip` sent and which asks for a switch to the protocol `upgrade_type`. There
/// is no result where the request's header map is too full to take the headers that are set.
pub fn create_proxied_request<B>(
    client_ip: &str,
    forward_url: &str,
    request: Request<B>,
    upgrade_type: Option<&String>,
) -> (r: Option<Result<Request<B>, ProxyError>>)
    requires
        is_proxyable(forward_url@, request@, borrowed_text(upgrade_type)),
    ensures
        r matches Some(result) ==> request_result(result) == forwarded_request(
            client_ip@,
            forward_url@,
            request@,
            borrowed_text(upgrade_type),
        ),
        r is None ==> forwarded_request(
            client_ip@,
            forward_url@,
            request@,
            borrowed_text(upgrade_type),
        ) is Ok && !has_room(
            request@.headers,
            set_count(request@.headers, borrowed_text(upgrade_type)),
        ),
{
    let url: String = forward_uri(forward_url, &request);
    create_proxied_request_with(client_ip, parse_uri(url.as_str()), request, upgrade_type)
}

/// No hop-by-hop header of the client reaches the backend. A header of the proxied request that
/// was hop-by-hop in the client's is one that the proxy sets anew: the readiness for trailers,
/// the switch of protocols that the client asks for, the target's host, and the client's address.
pub proof fn hop_by_hop_headers_are_not_forwarded(
    headers: HeaderContents,
    host: Seq<char>,
    upgrade: Option<Seq<char>>,
    client_ip: Seq<char>,
    name: Seq<char>,
)
    requires
        is_hop_by_hop(headers, name),
        proxied_headers(headers, host, upgrade, client_ip).contains_key(name),
    ensures
        ({
            let values = proxied_headers(headers, host, upgrade, client_ip)[name];
            ||| name == "te"@ && first_value_lists(headers, "te"@, "trailers"@) && values == seq![
                encode_utf8("trailers"@),
            ]
            ||| name == "upgrade"@ && upgrade is Some && values == seq![encode_utf8(upgrade->0)]
            ||| name == "connection"@ && upgrade is Some && values == seq![
                encode_utf8("UPGRADE"@),
            ]
            ||| name == "host"@ && values == seq![encode_utf8(host)]
            ||| name == "x-forwarded-for"@ && values == seq![encode_utf8(client_ip)]
        }),
{
    names_differ();
    list_of_one(encode_utf8(client_ip));
}

/// Every header of the client that is not hop-by-hop reaches the backend with all its values,
/// but for the host and the list of forwarding addresses; and nothing else is added.
pub proof fn end_to_end_headers_are_forwarded(
    headers: HeaderContents,
    host: Seq<char>,
    upgrade: Option<Seq<char>>,
    client_ip: Seq<char>,
    name: Seq<char>,
)
    requires
        !is_hop_by_hop(headers, name),
        name != "host"@,
        name != "x-forwarded-for"@,
    ensures
        ({
            let proxied = proxied_headers(headers, host, upgrade, client_ip);
            &&& proxied.contains_key(name) == headers.contains_key(name)
            &&& headers.contains_key(name) ==> proxied[name] == headers[name]
        }),
{
    names_differ();
}

/// The proxied request names the host of its target, and no other.
pub proof fn target_host_is_named(
    headers: HeaderContents,
    host: Seq<char>,
    upgrade: Option<Seq<char>>,
    client_ip: Seq<char>,
)
    ensures
        proxied_headers(headers, host, upgrade, client_ip).contains_key("host"@),
        proxied_headers(headers, host, upgrade, client_ip)["host"@] == seq![encode_utf8(host)],
{
    names_differ();
}

/// A value alone is the list of that value.
proof fn list_of_one(value: Seq<u8>)
    ensures
        comma_list(Seq::<Seq<u8>>::empty().push(value)) == value,
{
}

/// The client's address is added to the list of forwarding addresses, at its end, behind a comma
/// and a blank, and no address that came from end to end is lost; where there was no list, the
/// client's address is the list.
pub proof fn client_is_added_to_forwarding_list(
    headers: HeaderContents,
    host: Seq<char>,
    upgrade: Option<Seq<char>>,
    client_ip: Seq<char>,
)
    requires
        headers.contains_key("x-forwarded-for"@) ==> headers["x-forwarded-for"@].len() > 0,
    ensures
        ({
            let name = "x-forwarded-for"@;
            let list = proxied_headers(headers, host, upgrade, client_ip)[name];
            &&& proxied_headers(headers, host, upgrade, client_ip).contains_key(name)
            &&& if headers.contains_key(name) && !is_hop_by_hop(headers, name) {
                list == seq![
                    comma_list(headers[name]) + encode_utf8(", "@) + encode_utf8(client_ip),
                ]
            } else {
                list == seq![encode_utf8(client_ip)]
            }
        }),
{
    names_differ();
    list_of_one(encode_utf8(client_ip));
    let name = "x-forwarded-for"@;
    if headers.contains_key(name) {
        assert(headers[name].push(encode_utf8(client_ip)).drop_last() =~= headers[name]);
    }
}

/// Along a chain of proxies the addresses form one comma-space-separated list, in order, behind
/// those that were there before; where none was, the list is the text of the addresses.
pub proof fn forwarding_addresses_accumulate(
    headers: HeaderContents,
    first_ip: Seq<char>,
    second_ip: Seq<char>,
)
    ensures
        with_client(with_client(headers, first_ip), second_ip) == headers.insert(
            "x-forwarded-for"@,
            seq![
                comma_list(
                    forwarding_values(headers).push(encode_utf8(first_ip)).push(
                        encode_utf8(second_ip),
                    ),
                ),
            ],
        ),
        !headers.contains_key("x-forwarded-for"@) ==> with_client(
            with_client(headers, first_ip),
            second_ip,
        ) == headers.insert(
            "x-forwarded-for"@,
            seq![encode_utf8(first_ip + ", "@ + second_ip)],
        ),
{
    let name = "x-forwarded-for"@;
    let before = forwarding_values(headers).push(encode_utf8(first_ip));
    let both = before.push(encode_utf8(second_ip));
    let again = seq![comma_list(before)].push(encode_utf8(second_ip));
    assert(both.drop_last() =~= before);
    list_of_one(comma_list(before));
    assert(again.drop_last() =~= Seq::<Seq<u8>>::empty().push(comma_list(before)));
    assert(comma_list(again) == comma_list(both));
    assert(with_client(with_client(headers, first_ip), second_ip) =~= headers.insert(
        name,
        seq![comma_list(both)],
    ));
    list_of_one(encode_utf8(first_ip));
    encoding_of_concatenation(first_ip + ", "@, second_ip);
    encoding_of_concatenation(first_ip, ", "@);
}

/// The encoding of a text of ASCII characters, read byte for byte, is the text.
proof fn ascii_text_is_its_encoding(text: Seq<char>)
    requires
        is_ascii_chars(text),
    ensures
        byte_text(encode_utf8(text)) == text,
{
    is_ascii_chars_encode_utf8(text);
    assert forall|i: int| 0 <= i < text.len() implies byte_text(encode_utf8(text))[i] == text[i] by {
        assert(encode_utf8(text)[i] == text[i] as u8);
    }
    assert(byte_text(encode_utf8(text)) =~= text);
}

/// The protocol of a readable message is visible ASCII text in lower case, and so is its
/// encoding.
proof fn protocol_is_plain(headers: HeaderContents)
    requires
        has_readable_upgrade(headers),
        upgrade_type(headers) is Some,
    ensures
        is_ascii_chars(upgrade_type(headers)->0),
        lower(upgrade_type(headers)->0) == upgrade_type(headers)->0,
        is_visible(encode_utf8(upgrade_type(headers)->0)),
        is_header_value(encode_utf8(upgrade_type(headers)->0)),
{
    let value = headers["upgrade"@][0];
    let protocol = upgrade_type(headers)->0;
    lower_keeps_names(byte_text(value));
    assert forall|i: int| 0 <= i < protocol.len() implies 9 <= #[trigger] protocol[i] as int
        && protocol[i] as int <= 127 && ((32 <= protocol[i] as int && protocol[i] as int != 127)
        || protocol[i] as int == 9) by {
        assert(byte_text(value)[i] == value[i] as char);
        assert(protocol[i] == crate::text::lower_char(value[i] as char));
    }
    is_ascii_chars_encode_utf8(protocol);
    assert forall|i: int| 0 <= i < encode_utf8(protocol).len() implies (32
        <= #[trigger] encode_utf8(protocol)[i] < 127) || encode_utf8(protocol)[i] == 9 by {
        assert(encode_utf8(protocol)[i] == protocol[i] as u8);
    }
}

/// The header by which the proxy asks for a switch asks for one.
proof fn upgrade_lists_upgrade()
    ensures
        lists(byte_text(encode_utf8("UPGRADE"@)), "upgrade"@),
        is_visible(encode_utf8("UPGRADE"@)),
{
    reveal_strlit("UPGRADE");
    reveal_strlit("upgrade");
    let text = "UPGRADE"@;
    ascii_text_is_its_encoding(text);
    is_ascii_chars_encode_utf8(text);
    pieces_without_separator(text, ',');
    assert(lower(text) =~= "upgrade"@);
    assert(lower(trimmed(pieces(text, ',')[0])) == "upgrade"@);
}

/// The backend is asked for the switch of protocols that the client asks for, and for none where
/// the client asks for none.
pub proof fn upgrade_is_asked_of_backend(
    headers: HeaderContents,
    host: Seq<char>,
    client_ip: Seq<char>,
)
    requires
        has_readable_upgrade(headers),
    ensures
        upgrade_type(proxied_headers(headers, host, upgrade_type(headers), client_ip))
            == upgrade_type(headers),
        has_readable_upgrade(proxied_headers(headers, host, upgrade_type(headers), client_ip)),
{
    names_differ();
    if upgrade_type(headers) is Some {
        protocol_is_plain(headers);
        ascii_text_is_its_encoding(upgrade_type(headers)->0);
        upgrade_lists_upgrade();
    }
}

/// Lists of UTF-8 values are UTF-8.
proof fn lists_are_utf8(values: Seq<Seq<u8>>)
    requires
        forall|i: int| 0 <= i < values.len() ==> valid_utf8(#[trigger] values[i]),
    ensures
        valid_utf8(comma_list(values)),
    decreases values.len(),
{
    if values.len() > 1 {
        lists_are_utf8(values.drop_last());
        encode_utf8_valid_utf8(", "@);
        valid_utf8_concat(comma_list(values.drop_last()), encode_utf8(", "@));
        valid_utf8_concat(
            comma_list(values.drop_last()) + encode_utf8(", "@),
            values.last(),
        );
    }
}

/// A proxied request can be proxied again, to any target with a host, as long as all its
/// forwarding addresses are UTF-8.
pub proof fn proxied_request_can_be_proxied(
    uri: UriView,
    headers: HeaderContents,
    client_ip: Seq<char>,
    next: UriView,
)
    requires
        has_readable_upgrade(headers),
        is_proxyable_to(Ok(uri), headers, upgrade_type(headers)),
        is_header_value(encode_utf8(uri.host->0)),
        next.host is Some,
        forall|i: int|
            0 <= i < forwarding_values(end_to_end(headers)).len() ==> valid_utf8(
                #[trigger] forwarding_values(end_to_end(headers))[i],
            ),
    ensures
        ({
            let proxied = proxied_headers(
                headers,
                uri.host->0,
                upgrade_type(headers),
                client_ip,
            );
            has_readable_upgrade(proxied) && is_proxyable_to(
                Ok(next),
                proxied,
                upgrade_type(proxied),
            )
        }),
{
    names_differ();
    let proxied = proxied_headers(headers, uri.host->0, upgrade_type(headers), client_ip);
    upgrade_is_asked_of_backend(headers, uri.host->0, client_ip);
    if upgrade_type(headers) is Some {
        protocol_is_plain(headers);
    }
    reveal_strlit("trailers");
    is_ascii_chars_encode_utf8("trailers"@);
    assert(is_visible(encode_utf8("trailers"@)));
    let addresses = forwarding_values(end_to_end(headers)).push(encode_utf8(client_ip));
    encode_utf8_valid_utf8(client_ip);
    lists_are_utf8(addresses);
    assert(proxied["x-forwarded-for"@][0] == comma_list(addresses));
}

/// The names of the headers that the proxy sets are different from each other.
proof fn names_differ()
    ensures
        hop_names().contains("connection"@),
        hop_names().contains("te"@),
        hop_names().contains("upgrade"@),
        "connection"@ != "te"@,
        "connection"@ != "upgrade"@,
        "te"@ != "upgrade"@,
        !hop_names().contains("host"@),
        !hop_names().contains("x-forwarded-for"@),
        "host"@ != "x-forwarded-for"@,
{
    set_names_are_lower();
    reveal_strlit("connection");
    reveal_strlit("te");
    reveal_strlit("upgrade");
    assert("connection"@.len() == 10);
    assert("te"@.len() == 2);
    assert("upgrade"@.len() == 7);
    assert(hop_names()[0] == "connection"@);
    assert(hop_names()[1] == "te"@);
    assert(hop_names()[8] == "upgrade"@);
}

/// The backend is told of the readiness for trailers if and only if an item of the client's
/// first `TE` value is `trailers`, at whatever place in the list, in any case and with or without
/// blanks around it, whatever else the headers hold; and of nothing else by that header.
pub proof fn readiness_for_trailers_is_passed_on(
    headers: HeaderContents,
    host: Seq<char>,
    upgrade: Option<Seq<char>>,
    client_ip: Seq<char>,
)
    ensures
        ({
            let proxied = proxied_headers(headers, host, upgrade, client_ip);
            &&& proxied.contains_key("te"@) <==> headers.contains_key("te"@) && exists|i: int|
                0 <= i < pieces(byte_text(headers["te"@][0]), ',').len() && lower(
                    trimmed(#[trigger] pieces(byte_text(headers["te"@][0]), ',')[i]),
                ) == "trailers"@
            &&& proxied.contains_key("te"@) ==> proxied["te"@] == seq![encode_utf8("trailers"@)]
        }),
{
    names_differ();
}

/// The backend is asked for the switch to a protocol if and only if there is one, by both of the
/// headers that it takes.
pub proof fn switch_is_asked_for_by_two_headers(
    headers: HeaderContents,
    host: Seq<char>,
    upgrade: Option<Seq<char>>,
    client_ip: Seq<char>,
)
    ensures
        ({
            let proxied = proxied_headers(headers, host, upgrade, client_ip);
            match upgrade {
                Some(protocol) => {
                    &&& proxied.contains_key("upgrade"@)
                    &&& proxied["upgrade"@] == seq![encode_utf8(protocol)]
                    &&& proxied.contains_key("connection"@)
                    &&& proxied["connection"@] == seq![encode_utf8("UPGRADE"@)]
                },
                None => !proxied.contains_key("upgrade"@) && !proxied.contains_key("connection"@),
            }
        }),
{
    names_differ();
}

/// A list of values is the values in order, with a comma and a blank between each and the next.
pub proof fn values_are_listed_in_order(a: Seq<Seq<u8>>, b: Seq<Seq<u8>>, value: Seq<u8>)
    ensures
        comma_list(Seq::<Seq<u8>>::empty()) == Seq::<u8>::empty(),
        comma_list(seq![value]) == value,
        a.len() > 0 && b.len() > 0 ==> comma_list(a + b) == comma_list(a) + seq![44u8, 32u8]
            + comma_list(b),
    decreases b.len(),
{
    reveal_strlit(", ");
    is_ascii_chars_encode_utf8(", "@);
    assert(encode_utf8(", "@) =~= seq![44u8, 32u8]);
    if a.len() > 0 && b.len() > 0 {
        assert((a + b).drop_last() =~= a + b.drop_last());
        assert((a + b).last() == b.last());
        if b.len() == 1 {
            assert(a + b.drop_last() =~= a);
        } else {
            values_are_listed_in_order(a, b.drop_last(), value);
            assert(comma_list(a + b) =~= comma_list(a) + seq![44u8, 32u8] + comma_list(b));
        }
    }
}

/// The forwarding addresses that are listed are the values of one header.
pub proof fn forwarding_values_are_listed(headers: HeaderContents, client_ip: Seq<char>)
    ensures
        with_client(headers, client_ip) == headers.insert(
            "x-forwarded-for"@,
            seq![
                comma_list(
                    (if headers.contains_key("x-forwarded-for"@) {
                        headers["x-forwarded-for"@]
                    } else {
                        Seq::empty()
                    }) + seq![encode_utf8(client_ip)],
                ),
            ],
        ),
{
    assert(forwarding_values(headers) + seq![encode_utf8(client_ip)] =~= forwarding_values(
        headers,
    ).push(encode_utf8(client_ip)));
}

/// The response that goes back has the status and the body of the backend's response, and exactly
/// its end-to-end headers.
pub proof fn responses_go_back<B>(response: Response<B>, r: Response<B>)
    requires
        call_ensures(create_proxied_response::<B>, (response,), r),
    ensures
        r.status == response.status,
        r.body == response.body,
        header_contents(r.headers) == end_to_end(header_contents(response.headers)),
{
}

/// What is made of a request and a parsed target. A target that is no URI is refused with the
/// parser's error. A URI becomes that of the request, whose body is kept and whose headers are
/// the proxied ones; it is refused where its host, or the client's address, cannot stand in a
/// header. There is nothing only where the header map has not certainly room for the headers
/// that are set.
pub proof fn requests_are_made_or_refused<B>(
    client_ip: &str,
    target: Result<Uri, InvalidUri>,
    request: Request<B>,
    upgrade_type: Option<&String>,
    r: Option<Result<Request<B>, ProxyError>>,
)
    requires
        call_ensures(
            create_proxied_request_with::<B>,
            (client_ip, target, request, upgrade_type),
            r,
        ),
    ensures
        match target {
            Err(err) => r == Some(Err::<Request<B>, ProxyError>(ProxyError::InvalidUri(err))),
            Ok(parsed) => {
                let uri = parsed@;
                let upgrade = match upgrade_type {
                    Some(protocol) => Some(protocol@),
                    None => None,
                };
                let host = uri.host->0;
                let valid = is_header_value(encode_utf8(host)) && is_header_value(
                    encode_utf8(client_ip@),
                );
                match r {
                    Some(Ok(sent)) => {
                        &&& valid
                        &&& sent.uri@ == uri
                        &&& sent.body == request.body
                        &&& header_contents(sent.headers) == proxied_headers(
                            header_contents(request.headers),
                            host,
                            upgrade,
                            client_ip@,
                        )
                    },
                    Some(Err(err)) => !valid && err is ForwardHeaderError,
                    None => {
                        &&& valid
                        &&& !has_room(
                            header_contents(request.headers),
                            2 + (if first_value_lists(
                                header_contents(request.headers),
                                "te"@,
                                "trailers"@,
                            ) {
                                1nat
                            } else {
                                0
                            }) + if upgrade is Some {
                                2nat
                            } else {
                                0
                            },
                        )
                    },
                }
            },
        },
{
}

/// As `requests_are_made_or_refused`, for the target that the forwarding address and the request
/// form.
pub proof fn requests_are_forwarded_or_refused<B>(
    client_ip: &str,
    forward_url: &str,
    request: Request<B>,
    upgrade_type: Option<&String>,
    r: Option<Result<Request<B>, ProxyError>>,
)
    requires
        call_ensures(
            create_proxied_request::<B>,
            (client_ip, forward_url, request, upgrade_type),
            r,
        ),
    ensures
        match parsed_uri(
            forwarded_text(
                forward_url@,
                request.uri.path@,
                match request.uri.query {
                    Some(query) => Some(query@),
                    None => None,
                },
            ),
        ) {
            Err(err) => r == Some(Err::<Request<B>, ProxyError>(ProxyError::InvalidUri(err))),
            Ok(uri) => {
                let upgrade = match upgrade_type {
                    Some(protocol) => Some(protocol@),
                    None => None,
                };
                let host = uri.host->0;
                let valid = is_header_value(encode_utf8(host)) && is_header_value(
                    encode_utf8(client_ip@),
                );
                match r {
                    Some(Ok(sent)) => {
                        &&& valid
                        &&& sent.uri@ == uri
                        &&& sent.body == request.body
                        &&& header_contents(sent.headers) == proxied_headers(
                            header_contents(request.headers),
                            host,
                            upgrade,
                            client_ip@,
                        )
                    },
                    Some(Err(err)) => !valid && err is ForwardHeaderError,
                    None => {
                        &&& valid
                        &&& !has_room(
                            header_contents(request.headers),
                            2 + (if first_value_lists(
                                header_contents(request.headers),
                                "te"@,
                                "trailers"@,
                            ) {
                                1nat
                            } else {
                                0
                            }) + if upgrade is Some {
                                2nat
                            } else {
                                0
                            },
                        )
                    },
                }
            },
        },
{
}

/// Every request can be sent to a target but for these: one whose `TE` header is not visible
/// ASCII; and, where the target is a URI, one without a host, or, where that can stand in a
/// header, a request whose protocol cannot, or whose first end-to-end forwarding value is not
/// UTF-8. Whether a request can be sent is found out.
pub proof fn ordinary_requests_can_be_sent<B>(
    client_ip: &str,
    target: Result<Uri, InvalidUri>,
    request: Request<B>,
    upgrade_type: Option<&String>,
    r: bool,
)
    requires
        call_ensures(can_proxy_to::<B>, (&target, &request, upgrade_type), r),
    ensures
        ({
            let headers = header_contents(request.headers);
            let ordinary = {
                &&& headers.contains_key("te"@) ==> is_visible(headers["te"@][0])
                &&& target matches Ok(uri) ==> {
                    &&& uri.host is Some
                    &&& is_header_value(encode_utf8(uri.host->0@)) ==> {
                        &&& upgrade_type matches Some(protocol) ==> is_header_value(
                            encode_utf8(protocol@),
                        )
                        &&& headers.contains_key("x-forwarded-for"@) && !is_hop_by_hop(
                            headers,
                            "x-forwarded-for"@,
                        ) ==> valid_utf8(headers["x-forwarded-for"@][0])
                    }
                }
            };
            &&& r <==> ordinary
            &&& ordinary ==> call_requires(
                create_proxied_request_with::<B>,
                (client_ip, target, request, upgrade_type),
            )
        }),
{
}

/// As `ordinary_requests_can_be_sent`, for the target that the forwarding address and the request
/// form.
pub proof fn ordinary_requests_can_be_forwarded<B>(
    client_ip: &str,
    forward_url: &str,
    request: Request<B>,
    upgrade_type: Option<&String>,
    r: bool,
)
    requires
        call_ensures(can_proxy::<B>, (forward_url, &request, upgrade_type), r),
    ensures
        ({
            let headers = header_contents(request.headers);
            let target = parsed_uri(
                forwarded_text(
                    forward_url@,
                    request.uri.path@,
                    match request.uri.query {
                        Some(query) => Some(query@),
                        None => None,
                    },
                ),
            );
            let ordinary = {
                &&& headers.contains_key("te"@) ==> is_visible(headers["te"@][0])
                &&& target matches Ok(uri) ==> {
                    &&& uri.host is Some
                    &&& is_header_value(encode_utf8(uri.host->0)) ==> {
                        &&& upgrade_type matches Some(protocol) ==> is_header_value(
                            encode_utf8(protocol@),
                        )
                        &&& headers.contains_key("x-forwarded-for"@) && !is_hop_by_hop(
                            headers,
                            "x-forwarded-for"@,
                        ) ==> valid_utf8(headers["x-forwarded-for"@][0])
                    }
                }
            };
            &&& r <==> ordinary
            &&& r <==> is_proxyable(
                forward_url@,
                request@,
                match upgrade_type {
                    Some(protocol) => Some(protocol@),
                    None => None,
                },
            )
            &&& ordinary ==> call_requires(
                create_proxied_request::<B>,
                (client_ip, forward_url, request, upgrade_type),
            )
        }),
{
}

/// No header is without a value, neither among those that stay nor in the proxied request.
pub proof fn headers_keep_having_values(
    headers: HeaderContents,
    host: Seq<char>,
    upgrade: Option<Seq<char>>,
    client_ip: Seq<char>,
)
    requires
        every_name_has_a_value(headers),
    ensures
        every_name_has_a_value(end_to_end(headers)),
        every_name_has_a_value(proxied_headers(headers, host, upgrade, client_ip)),
{
}

} // verus!
