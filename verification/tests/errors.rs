use http_body_util::Empty;
use hyper::body::Bytes;
use hyper::header::HeaderValue;
use hyper_reverse_proxy::{call, CallAction, CallEvent, CallState, ProxyError, Response};
use hyper_util::client::legacy::{connect::HttpConnector, Client, Error as ClientError};
use hyper_util::rt::TokioExecutor;

fn runtime() -> tokio::runtime::Runtime {
    tokio::runtime::Builder::new_current_thread()
        .enable_all()
        .build()
        .unwrap()
}

/// The error of a client that is given a URI without a host.
fn client_error() -> ClientError {
    runtime().block_on(async {
        let client: Client<HttpConnector, Empty<Bytes>> =
            Client::builder(TokioExecutor::new()).build(HttpConnector::new());
        client
            .get(hyper::Uri::from_static("/"))
            .await
            .unwrap_err()
    })
}

/// The error of taking over a connection that cannot be taken over.
fn connection_error() -> hyper::Error {
    runtime().block_on(async {
        hyper::upgrade::on(hyper::Request::new(()))
            .await
            .unwrap_err()
    })
}

#[test]
fn invalid_uris_are_carried() {
    let err = "http://back end".parse::<hyper::Uri>().unwrap_err();
    let text = err.to_string();
    let err = ProxyError::from(err);
    assert!(matches!(err, ProxyError::InvalidUri(_)));
    assert_eq!(err.message(), text);
}

#[test]
fn header_errors_are_forward_header_errors() {
    let err = HeaderValue::from_bytes(b"\xff").unwrap().to_str().unwrap_err();
    assert!(matches!(ProxyError::from(err), ProxyError::ForwardHeaderError));
    let err = ProxyError::from(HeaderValue::from_str("\n").unwrap_err());
    assert!(matches!(err, ProxyError::ForwardHeaderError));
    assert_eq!(err.message(), "ForwardHeaderError");
}

#[test]
fn client_errors_are_upgrade_errors() {
    let err = client_error();
    let text = err.to_string();
    match ProxyError::from(err) {
        ProxyError::UpgradeError(reason) => {
            assert_eq!(reason, text);
            assert_eq!(reason, "client error (UserAbsoluteUriRequired)");
        }
        _ => panic!("not an upgrade error"),
    }
}

#[test]
fn unanswered_request_fails() {
    let state: CallState<()> = CallState::Sent {
        upgrade_type: None,
        upgradable: false,
    };
    match call::<(), ()>(state, CallEvent::SendFailed(client_error())) {
        Some((CallState::Finished, CallAction::Fail(err))) => assert_eq!(
            err.message(),
            "UpgradeError: client error (UserAbsoluteUriRequired)"
        ),
        _ => panic!("the call did not fail"),
    }
}

#[test]
fn failed_takeover_fails() {
    let state = CallState::Switching {
        response: Response {
            status: 101,
            headers: hyper::HeaderMap::new(),
            body: (),
        },
    };
    match call::<(), ()>(state, CallEvent::UpgradeFailed(connection_error())) {
        Some((CallState::Finished, CallAction::Fail(err))) => {
            assert!(matches!(err, ProxyError::HyperError(_)));
            assert_eq!(err.message(), connection_error().to_string());
        }
        _ => panic!("the call did not fail"),
    }
}
