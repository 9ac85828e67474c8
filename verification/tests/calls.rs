use hyper::header::{HeaderMap, HeaderName, HeaderValue, CONNECTION, UPGRADE};
use hyper_reverse_proxy::call::send_proxied;
use hyper_reverse_proxy::{
    call, CallAction, CallEvent, CallState, ProxyError, Request, Response, Uri,
};

const BACKEND: &str = "http://127.0.0.1:13901";

type Outcome = Option<(CallState<()>, CallAction<(), ()>)>;

fn request(path: &str, headers: HeaderMap) -> Request<()> {
    Request {
        uri: Uri {
            scheme: None,
            authority: None,
            host: None,
            path: path.to_string(),
            query: None,
        },
        headers,
        body: (),
    }
}

fn response(status: u16, headers: HeaderMap) -> Response<()> {
    Response {
        status,
        headers,
        body: (),
    }
}

fn websocket(option: &'static str) -> HeaderMap {
    let mut headers = HeaderMap::new();
    headers.insert(CONNECTION, HeaderValue::from_static(option));
    headers.insert(UPGRADE, HeaderValue::from_static("websocket"));
    headers
}

fn receive(forward_uri: &str, request: Request<()>, upgradable: bool) -> Outcome {
    call(
        CallState::Idle,
        CallEvent::Received {
            client_ip: "127.0.0.1".to_string(),
            forward_uri: forward_uri.to_string(),
            request,
            upgradable,
        },
    )
}

/// The state after the request was sent, and the request that was sent.
fn send(request: Request<()>, upgradable: bool) -> (CallState<()>, Request<()>) {
    match receive(BACKEND, request, upgradable) {
        Some((state, CallAction::Send(sent))) => (state, sent),
        _ => panic!("the request was not sent"),
    }
}

/// The status that the client gets for this response: 502 stands for an error.
fn status_for(request: Request<()>, upgradable: bool, answer: Response<()>) -> u16 {
    let (state, _) = send(request, upgradable);
    match call::<(), ()>(state, CallEvent::Responded(answer)) {
        Some((CallState::Finished, CallAction::Reply(reply))) => reply.status,
        Some((CallState::Finished, CallAction::Fail(_))) => 502,
        _ => panic!("the call is not finished"),
    }
}

/// The text of the error that the call ends with.
fn error_for(outcome: Outcome) -> String {
    match outcome {
        Some((CallState::Finished, CallAction::Fail(err))) => err.message(),
        _ => panic!("the call did not fail"),
    }
}

#[test]
fn test_get_error_500() {
    let mut headers = HeaderMap::new();
    headers.insert("keep-alive", HeaderValue::from_static("treu"));
    assert_eq!(
        500,
        status_for(request("/500", headers), false, response(500, HeaderMap::new()))
    );
}

#[test]
fn test_upgrade_mismatch() {
    let status = status_for(
        request("/ws", websocket("Upgrade")),
        true,
        response(101, HeaderMap::new()),
    );
    assert_eq!(status, 502);
}

#[test]
fn test_upgrade_unrequested() {
    let status = status_for(
        request("/wrong_switch", HeaderMap::new()),
        false,
        response(101, HeaderMap::new()),
    );
    assert_eq!(status, 502);
}

#[test]
fn test_get() {
    assert_eq!(
        200,
        status_for(request("/foo", HeaderMap::new()), false, response(200, HeaderMap::new()))
    );
}

#[test]
fn request_is_sent_to_the_backend() {
    let mut headers = HeaderMap::new();
    headers.insert("keep-alive", HeaderValue::from_static("treu"));
    let (state, sent) = send(request("/foo", headers), false);
    assert!(matches!(
        state,
        CallState::Sent { upgrade_type: None, upgradable: false }
    ));
    assert_eq!(sent.uri.authority.as_deref(), Some("127.0.0.1:13901"));
    assert_eq!(sent.uri.path, "/foo");
    assert_eq!(sent.headers["host"], "127.0.0.1");
    assert_eq!(sent.headers["x-forwarded-for"], "127.0.0.1");
    assert_eq!(sent.headers.len(), 2);
}

#[test]
fn reply_is_stripped() {
    let (state, _) = send(request("/foo", HeaderMap::new()), false);
    let mut headers = HeaderMap::new();
    headers.insert(CONNECTION, HeaderValue::from_static("close, x-foo"));
    headers.insert("x-foo", HeaderValue::from_static("1"));
    headers.insert("x-bar", HeaderValue::from_static("2"));
    match call::<(), ()>(state, CallEvent::Responded(response(200, headers))) {
        Some((CallState::Finished, CallAction::Reply(reply))) => {
            assert_eq!(reply.headers.len(), 1);
            assert_eq!(reply.headers["x-bar"], "2");
        }
        _ => panic!("there was no reply"),
    }
}

#[test]
fn agreed_switch_is_tunnelled() {
    let (state, sent) = send(request("/", websocket("Upgrade")), true);
    assert_eq!(sent.headers[CONNECTION], "UPGRADE");
    assert_eq!(sent.headers[UPGRADE], "websocket");

    let answer = response(101, websocket("upgrade"));
    let state = match call::<(), ()>(state, CallEvent::Responded(answer)) {
        Some((state, CallAction::AwaitUpgrade)) => state,
        _ => panic!("the switch was not accepted"),
    };
    match call::<(), ()>(state, CallEvent::Upgraded) {
        Some((CallState::Finished, CallAction::Tunnel(answer))) => {
            assert_eq!(answer.status, 101);
            assert_eq!(answer.headers, websocket("upgrade"));
        }
        _ => panic!("the connections were not joined"),
    }
}

#[test]
fn another_protocol_is_refused() {
    let (state, _) = send(request("/", websocket("Upgrade")), true);
    let mut headers = websocket("upgrade");
    headers.insert(UPGRADE, HeaderValue::from_static("H2C \"x\""));
    let outcome = call::<(), ()>(state, CallEvent::Responded(response(101, headers)));
    assert_eq!(
        error_for(outcome),
        "UpgradeError: backend tried to switch to protocol Some(\"h2c \\\"x\\\"\") \
         when Some(\"websocket\") was requested"
    );
}

#[test]
fn missing_protocol_is_refused() {
    let (state, _) = send(request("/ws", websocket("Upgrade")), true);
    let answer = response(101, HeaderMap::new());
    assert_eq!(
        error_for(call::<(), ()>(state, CallEvent::Responded(answer))),
        "UpgradeError: backend tried to switch to protocol None \
         when Some(\"websocket\") was requested"
    );
}

#[test]
fn printable_protocols_are_shown_as_they_are() {
    let plain: String = (' '..='~').filter(|c| *c != '"' && *c != '\\').collect();
    let state: CallState<()> = CallState::Sent {
        upgrade_type: Some(plain.clone()),
        upgradable: true,
    };
    let answer = response(101, HeaderMap::new());
    match call::<(), ()>(state, CallEvent::Responded(answer)) {
        Some((CallState::Finished, CallAction::Fail(ProxyError::UpgradeError(text)))) => {
            let mut expected = "backend tried to switch to protocol None when Some(\"".to_string();
            expected.push_str(&plain);
            expected.push_str("\") was requested");
            assert_eq!(text, expected);
        }
        _ => panic!("the call did not fail"),
    }
}

#[test]
fn unrequested_protocol_is_refused() {
    let (state, _) = send(request("/", HeaderMap::new()), true);
    let answer = response(101, websocket("upgrade"));
    assert_eq!(
        error_for(call::<(), ()>(state, CallEvent::Responded(answer))),
        "UpgradeError: backend tried to switch to protocol Some(\"websocket\") \
         when None was requested"
    );
}

#[test]
fn switch_of_a_fixed_connection_is_refused() {
    let (state, _) = send(request("/", websocket("Upgrade")), false);
    let answer = response(101, websocket("upgrade"));
    assert_eq!(
        error_for(call::<(), ()>(state, CallEvent::Responded(answer))),
        "UpgradeError: request does not have an upgrade extension"
    );
}

#[test]
fn refused_request_is_not_sent() {
    let outcome = receive("http://back end", request("/", HeaderMap::new()), false);
    assert_eq!(error_for(outcome), "invalid uri character");
}

#[test]
fn refusals_are_handed_on() {
    for (address, reason) in [
        ("http://back end", "invalid uri character"),
        ("http://user@", "invalid authority"),
        ("backend.example", "invalid format"),
    ] {
        let outcome = receive(address, request("/", HeaderMap::new()), false);
        assert!(matches!(
            outcome,
            Some((CallState::Finished, CallAction::Fail(ProxyError::InvalidUri(_))))
        ));
        assert_eq!(error_for(outcome), reason);
    }
}

#[test]
fn proxied_request_decides_what_comes_next() {
    let protocol = Some("websocket".to_string());
    let proxied = Some(Ok(request("/", HeaderMap::new())));
    match send_proxied::<(), ()>(proxied, protocol.clone(), true) {
        Some((CallState::Sent { upgrade_type, upgradable }, CallAction::Send(sent))) => {
            assert_eq!(upgrade_type, protocol);
            assert!(upgradable);
            assert_eq!(sent.uri.path, "/");
        }
        _ => panic!("the request was not sent"),
    }
    let refused = Some(Err(ProxyError::UpgradeError("no".to_string())));
    assert_eq!(
        error_for(send_proxied(refused, protocol.clone(), true)),
        "UpgradeError: no"
    );
    assert!(send_proxied::<(), ()>(None, protocol, true).is_none());
}

#[test]
fn large_requests_are_sent() {
    let mut headers = HeaderMap::new();
    for i in 0..24_576 {
        headers.insert(
            HeaderName::from_bytes(format!("x-{}", i).as_bytes()).unwrap(),
            HeaderValue::from_static("1"),
        );
        if i == 9_999 {
            let (_, sent) = send(request("/", headers.clone()), false);
            assert_eq!(sent.headers.keys_len(), 10_002);
        }
    }
    assert!(receive(BACKEND, request("/", headers), false).is_none());
}

#[test]
fn unreadable_messages_have_no_outcome() {
    let mut headers = HeaderMap::new();
    headers.insert(CONNECTION, HeaderValue::from_bytes(b"\xff").unwrap());
    assert!(receive(BACKEND, request("/", headers.clone()), false).is_none());
    assert!(receive("", request("", HeaderMap::new()), false).is_some());
    assert!(receive("", request("/", HeaderMap::new()), false).is_none());

    let (state, _) = send(request("/", HeaderMap::new()), false);
    assert!(call::<(), ()>(state, CallEvent::Responded(response(101, headers.clone()))).is_none());
    let (state, _) = send(request("/", HeaderMap::new()), false);
    assert!(call::<(), ()>(state, CallEvent::Responded(response(200, headers))).is_some());
}

#[test]
fn events_belong_to_states() {
    assert!(call::<(), ()>(CallState::Idle, CallEvent::Upgraded).is_none());
    let (state, _) = send(request("/", HeaderMap::new()), false);
    assert!(call::<(), ()>(state, CallEvent::Upgraded).is_none());
    let answer = response(200, HeaderMap::new());
    assert!(call::<(), ()>(CallState::Finished, CallEvent::Responded(answer)).is_none());
}
