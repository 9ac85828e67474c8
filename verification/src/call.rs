//! One proxied call: what to do next at each event.

use vstd::prelude::*;
use vstd::string::to_string_from_display_ensures;
use vstd::utf8::encode_utf8;

use crate::error::{ProxyError, ProxyErrorView};
use crate::forward::forwarded_text;
use crate::header_map::{has_room, header_contents, is_header_value};
use crate::hop::{end_to_end, is_hop_by_hop};
use crate::message::{Request, RequestView, Response};
use crate::proxy::{
    can_proxy, create_proxied_request, create_proxied_response, forwarded_request, is_proxyable,
    proxied_headers, set_count, target, upgrade_is_asked_of_backend,
};
use crate::text::{option_text, same_text};
use crate::upgrade::{
    first_value_lists, get_upgrade_type, has_readable_upgrade, readable_upgrade, upgrade_type,
};
use crate::uri::parsed_uri;

verus! {

/// The status of a response that switches protocols.
pub const SWITCHING_PROTOCOLS: u16 = 101;

/// How far a call has come.
pub enum CallState<R> {
    /// Nothing has been done.
    Idle,
    /// The proxied request is on its way. `upgrade_type` is the protocol that the client asks
    /// to switch to, and `upgradable` tells whether its connection can be taken over.
    Sent { upgrade_type: Option<String>, upgradable: bool },
    /// The backend agreed to switch, by this response; its connection is being taken over.
    Switching { response: Response<R> },
    /// The client has its answer.
    Finished,
}

/// What has happened.
pub enum CallEvent<Q, R> {
    /// The client at `client_ip` sent a request that is to be forwarded to `forward_uri`.
    Received { client_ip: String, forward_uri: String, request: Request<Q>, upgradable: bool },
    /// The backend answered the proxied request.
    Responded(Response<R>),
    /// The proxied request got no answer.
    SendFailed(hyper_util::client::legacy::Error),
    /// The connection to the backend has been taken over.
    Upgraded,
    /// The connection to the backend could not be taken over.
    UpgradeFailed(hyper::Error),
}

/// What is to be done.
pub enum CallAction<Q, R> {
    /// Send this request to the backend.
    Send(Request<Q>),
    /// Take over the connection to the backend.
    AwaitUpgrade,
    /// Connect the client's and the backend's connections, and answer with this response.
    Tunnel(Response<R>),
    /// Answer with this response.
    Reply(Response<R>),
    /// Give up with this error.
    Fail(ProxyError),
}

/// The text by which std's `Debug` shows a string that may be missing.
pub uninterp spec fn debug_text(value: Option<Seq<char>>) -> Seq<char>;

/// A character that `Debug` shows as it is, inside a string: printable ASCII, but for `"` and `\`.
pub open spec fn is_shown_as_is(c: char) -> bool {
    ' ' <= c <= '~' && c != '"' && c != '\\'
}

/// How a string that may be missing is shown: by its variant, and the text in quotes. A text that
/// holds other characters is shown as std's `Debug` escapes it.
pub open spec fn shown(value: Option<Seq<char>>) -> Seq<char> {
    match value {
        None => "None"@,
        Some(text) => if forall|i: int| 0 <= i < text.len() ==> is_shown_as_is(#[trigger] text[i]) {
            "Some(\""@ + text + "\")"@
        } else {
            debug_text(value)
        },
    }
}

/// What the client is told when the backend switches to another protocol than it asked for.
pub open spec fn mismatch_text(
    response: Option<Seq<char>>,
    request: Option<Seq<char>>,
) -> Seq<char> {
    "backend tried to switch to protocol "@ + shown(response) + " when "@ + shown(request)
        + " was requested"@
}

/// Whether `outcome` is that the call gives up with that error.
pub open spec fn gives_up<Q, R>(
    outcome: Option<(CallState<R>, CallAction<Q, R>)>,
    error: ProxyErrorView,
) -> bool {
    outcome matches Some((state, action)) && state is Finished && (action matches CallAction::Fail(
        err,
    ) && err@ == error)
}

/// What becomes of a request of a client. There is no outcome where the request holds what
/// cannot be read or written as a header, or where its target has no host; and, where there is
/// not certainly room for the headers that are set, there is none if the header map is full.
pub open spec fn outcome_of_request<Q, R>(
    client_ip: Seq<char>,
    forward_uri: Seq<char>,
    request: Request<Q>,
    upgradable: bool,
    outcome: Option<(CallState<R>, CallAction<Q, R>)>,
) -> bool {
    let upgrade = upgrade_type(request@.headers);
    if !has_readable_upgrade(request@.headers) || !is_proxyable(forward_uri, request@, upgrade) {
        outcome is None
    } else if outcome is None {
        &&& forwarded_request(client_ip, forward_uri, request@, upgrade) is Ok
        &&& !has_room(request@.headers, set_count(request@.headers, upgrade))
    } else {
        match forwarded_request(client_ip, forward_uri, request@, upgrade) {
            Ok(proxied) => {
                &&& outcome matches Some((state, action))
                &&& state matches CallState::Sent { upgrade_type: asked, upgradable: can }
                &&& option_text(asked) == upgrade
                &&& can == upgradable
                &&& action matches CallAction::Send(sent)
                &&& sent@ == proxied
            },
            Err(error) => gives_up(outcome, error),
        }
    }
}

/// What becomes of a response of the backend to a request that asked for a switch to `asked`.
/// There is no outcome where it switches to a protocol that cannot be read.
pub open spec fn outcome_of_response<Q, R>(
    asked: Option<Seq<char>>,
    upgradable: bool,
    response: Response<R>,
    outcome: Option<(CallState<R>, CallAction<Q, R>)>,
) -> bool {
    let agreed = upgrade_type(response@.headers);
    if response.status != SWITCHING_PROTOCOLS {
        &&& outcome matches Some((state, action))
        &&& state is Finished
        &&& action matches CallAction::Reply(reply)
        &&& reply@.status == response.status
        &&& reply@.headers == end_to_end(response@.headers)
        &&& reply@.body == response.body
    } else if !has_readable_upgrade(response@.headers) {
        outcome is None
    } else if agreed != asked {
        gives_up(outcome, ProxyErrorView::UpgradeError(mismatch_text(agreed, asked)))
    } else if !upgradable {
        gives_up(
            outcome,
            ProxyErrorView::UpgradeError("request does not have an upgrade extension"@),
        )
    } else {
        outcome == Some(
            (
                CallState::Switching { response },
                CallAction::<Q, R>::AwaitUpgrade,
            ),
        )
    }
}

/// What becomes of a call in that state at that event. There is no outcome where the event does
/// not belong to the state.
pub open spec fn is_outcome<Q, R>(
    state: CallState<R>,
    event: CallEvent<Q, R>,
    outcome: Option<(CallState<R>, CallAction<Q, R>)>,
) -> bool {
    match (state, event) {
        (
            CallState::Idle,
            CallEvent::Received { client_ip, forward_uri, request, upgradable },
        ) => outcome_of_request(client_ip@, forward_uri@, request, upgradable, outcome),
        (
            CallState::Sent { upgrade_type, upgradable },
            CallEvent::Responded(response),
        ) => outcome_of_response(option_text(upgrade_type), upgradable, response, outcome),
        (CallState::Sent { .. }, CallEvent::SendFailed(err)) => {
            &&& outcome matches Some((state, action))
            &&& state is Finished
            &&& action matches CallAction::Fail(ProxyError::UpgradeError(text))
            &&& to_string_from_display_ensures::<hyper_util::client::legacy::Error>(&err, text)
        },
        (CallState::Switching { response }, CallEvent::Upgraded) => outcome == Some(
            (CallState::<R>::Finished, CallAction::<Q, R>::Tunnel(response)),
        ),
        (CallState::Switching { .. }, CallEvent::UpgradeFailed(err)) => outcome == Some(
            (CallState::<R>::Finished, CallAction::<Q, R>::Fail(ProxyError::HyperError(err))),
        ),
        _ => outcome is None,
    }
}

/// `format!` with `{:?}`: the text by which std shows a string that may be missing. It depends on
/// the value alone; a missing string is shown as `None`, and one of printable ASCII characters
/// that need no escape as `Some`, with the text in double quotes. How other characters are
/// escaped is not stated.
#[verifier::external_body]
fn show(value: &Option<String>) -> (text: String)
    ensures
        text@ == debug_text(option_text(*value)),
        text@ == shown(option_text(*value)),
{
    format!("{:?}", value)
}

/// Whether two protocols are the same, or both are missing.
fn same_protocol(a: &Option<String>, b: &Option<String>) -> (r: bool)
    ensures
        r == (option_text(*a) == option_text(*b)),
{
    match (a, b) {
        (Some(x), Some(y)) => same_text(x.as_str(), y.as_str()),
        (None, None) => true,
        _ => false,
    }
}

/// Goes on when the proxied request has been made: it is sent, or the call gives up with the
/// error in its place. There is no outcome where there is neither.
pub fn send_proxied<Q, R>(
    proxied: Option<Result<Request<Q>, ProxyError>>,
    upgrade_type: Option<String>,
    upgradable: bool,
) -> (outcome: Option<(CallState<R>, CallAction<Q, R>)>)
    ensures
        outcome == match proxied {
            Some(Ok(request)) => Some(
                (
                    CallState::<R>::Sent { upgrade_type, upgradable },
                    CallAction::<Q, R>::Send(request),
                ),
            ),
            Some(Err(err)) => Some((CallState::<R>::Finished, CallAction::<Q, R>::Fail(err))),
            None => None,
        },
{
    match proxied {
        Some(Ok(request)) => Some(
            (CallState::Sent { upgrade_type, upgradable }, CallAction::Send(request)),
        ),
        Some(Err(err)) => Some((CallState::Finished, CallAction::Fail(err))),
        None => None,
    }
}

/// Takes up a request of a client.
fn forward_request<Q, R>(
    client_ip: &str,
    forward_uri: &str,
    request: Request<Q>,
    upgradable: bool,
) -> (outcome: Option<(CallState<R>, CallAction<Q, R>)>)
    ensures
        outcome_of_request(client_ip@, forward_uri@, request, upgradable, outcome),
{
    if !readable_upgrade(&request.headers) {
        return None;
    }
    let upgrade_type: Option<String> = get_upgrade_type(&request.headers);
    let asked: Option<&String> = match &upgrade_type {
        Some(protocol) => Some(protocol),
        None => None,
    };
    if !can_proxy(forward_uri, &request, asked) {
        return None;
    }
    let proxied: Option<Result<Request<Q>, ProxyError>> = create_proxied_request(
        client_ip,
        forward_uri,
        request,
        asked,
    );
    send_proxied(proxied, upgrade_type, upgradable)
}

/// Takes up a response of the backend.
fn return_response<Q, R>(
    asked: Option<String>,
    upgradable: bool,
    response: Response<R>,
) -> (outcome: Option<(CallState<R>, CallAction<Q, R>)>)
    ensures
        outcome_of_response(option_text(asked), upgradable, response, outcome),
{
    if response.status != SWITCHING_PROTOCOLS {
        return Some((CallState::Finished, CallAction::Reply(create_proxied_response(response))));
    }
    if !readable_upgrade(&response.headers) {
        return None;
    }
    let agreed: Option<String> = get_upgrade_type(&response.headers);
    if !same_protocol(&agreed, &asked) {
        let mut text: String = "backend tried to switch to protocol ".to_owned();
        text.append(show(&agreed).as_str());
        text.append(" when ");
        text.append(show(&asked).as_str());
        text.append(" was requested");
        return Some((CallState::Finished, CallAction::Fail(ProxyError::UpgradeError(text))));
    }
    if !upgradable {
        let text: String = "request does not have an upgrade extension".to_owned();
        return Some((CallState::Finished, CallAction::Fail(ProxyError::UpgradeError(text))));
    }
    Some((CallState::Switching { response }, CallAction::AwaitUpgrade))
}

/// Decides what to do next in a call: from its state and an event to its next state and an
/// action.
pub fn call<Q, R>(state: CallState<R>, event: CallEvent<Q, R>) -> (outcome: Option<
    (CallState<R>, CallAction<Q, R>),
>)
    ensures
        is_outcome(state, event, outcome),
{
    match (state, event) {
        (
            CallState::Idle,
            CallEvent::Received { client_ip, forward_uri, request, upgradable },
        ) => forward_request(client_ip.as_str(), forward_uri.as_str(), request, upgradable),
        (
            CallState::Sent { upgrade_type, upgradable },
            CallEvent::Responded(response),
        ) => return_response(upgrade_type, upgradable, response),
        (CallState::Sent { .. }, CallEvent::SendFailed(err)) => Some(
            (CallState::Finished, CallAction::Fail(ProxyError::from(err))),
        ),
        (CallState::Switching { response }, CallEvent::Upgraded) => Some(
            (CallState::Finished, CallAction::Tunnel(response)),
        ),
        (CallState::Switching { .. }, CallEvent::UpgradeFailed(err)) => Some(
            (CallState::Finished, CallAction::Fail(ProxyError::from(err))),
        ),
        _ => None,
    }
}

/// How many events a call can still take.
pub open spec fn events_left<R>(state: CallState<R>) -> nat {
    match state {
        CallState::Idle => 3,
        CallState::Sent { .. } => 2,
        CallState::Switching { .. } => 1,
        CallState::Finished => 0,
    }
}

/// Every event brings a call nearer to its end: after three at most it is finished. It is
/// finished as soon as the client has a response or an error, and not before; and once it is
/// finished, nothing happens any more.
pub proof fn calls_come_to_an_end<Q, R>(
    state: CallState<R>,
    event: CallEvent<Q, R>,
    outcome: Option<(CallState<R>, CallAction<Q, R>)>,
)
    requires
        is_outcome(state, event, outcome),
    ensures
        state is Finished ==> outcome is None,
        outcome matches Some((next, action)) ==> {
            &&& events_left(next) < events_left(state)
            &&& action is Send <==> next is Sent
            &&& action is AwaitUpgrade <==> next is Switching
            &&& (action is Tunnel || action is Reply || action is Fail) <==> next is Finished
        },
{
}

/// The backend is sent nothing but the proxied request, and that only where there is one: a
/// request that is refused is not sent.
pub proof fn only_proxied_requests_are_sent<Q, R>(
    state: CallState<R>,
    event: CallEvent<Q, R>,
    next: CallState<R>,
    sent: Request<Q>,
)
    requires
        is_outcome(state, event, Some((next, CallAction::Send(sent)))),
    ensures
        state is Idle,
        event matches CallEvent::Received { client_ip, forward_uri, request, upgradable }
            && forwarded_request(
            client_ip@,
            forward_uri@,
            request@,
            upgrade_type(request@.headers),
        ) == Ok::<_, ProxyErrorView>(sent@),
{
}

/// A request that is refused ends the call at once, with the very error that it is refused with:
/// where the forwarding address and the request do not form a URI, that is the parser's error.
pub proof fn refusals_are_handed_on<Q, R>(
    event: CallEvent<Q, R>,
    outcome: Option<(CallState<R>, CallAction<Q, R>)>,
    error: ProxyErrorView,
)
    requires
        is_outcome(CallState::Idle, event, outcome),
        event matches CallEvent::Received { client_ip, forward_uri, request, upgradable } && {
            let upgrade = upgrade_type(request@.headers);
            &&& has_readable_upgrade(request@.headers)
            &&& is_proxyable(forward_uri@, request@, upgrade)
            &&& forwarded_request(client_ip@, forward_uri@, request@, upgrade) == Err::<
                RequestView<Q>,
                ProxyErrorView,
            >(error)
        },
    ensures
        gives_up(outcome, error),
{
}

/// What the client gets as a plain reply is the backend's response without its hop-by-hop
/// headers: same status, same body, and no header that is hop-by-hop in the response.
pub proof fn replies_are_stripped_responses<Q, R>(
    state: CallState<R>,
    event: CallEvent<Q, R>,
    next: CallState<R>,
    reply: Response<R>,
)
    requires
        is_outcome(state, event, Some((next, CallAction::Reply(reply)))),
    ensures
        event matches CallEvent::Responded(response) && {
            &&& response.status != SWITCHING_PROTOCOLS
            &&& reply@.status == response.status
            &&& reply@.body == response.body
            &&& forall|name: Seq<char>| #[trigger]
                reply@.headers.contains_key(name) ==> !is_hop_by_hop(response@.headers, name)
                    && response@.headers.contains_key(name) && reply@.headers[name]
                    == response@.headers[name]
        },
{
}

/// The two connections are joined only after the backend agreed, by a response that switches
/// protocols, to the very protocol that the client's request asks for, and only where the
/// client's connection can be taken over. The client is answered with that response.
pub proof fn only_agreed_switches_are_tunnelled<Q, R>(
    request_event: CallEvent<Q, R>,
    sent: CallState<R>,
    proxied: Request<Q>,
    response_event: CallEvent<Q, R>,
    switching: CallState<R>,
    last_event: CallEvent<Q, R>,
    finished: CallState<R>,
    answer: Response<R>,
)
    requires
        is_outcome(
            CallState::Idle,
            request_event,
            Some((sent, CallAction::Send(proxied))),
        ),
        is_outcome(sent, response_event, Some((switching, CallAction::<Q, R>::AwaitUpgrade))),
        is_outcome(
            switching,
            last_event,
            Some((finished, CallAction::<Q, R>::Tunnel(answer))),
        ),
    ensures
        response_event == CallEvent::<Q, R>::Responded(answer),
        answer.status == SWITCHING_PROTOCOLS,
        last_event is Upgraded,
        request_event matches CallEvent::Received { client_ip, forward_uri, request, upgradable }
            && upgradable && upgrade_type(answer@.headers) == upgrade_type(request@.headers)
            && upgrade_type(answer@.headers) == upgrade_type(proxied@.headers),
{
    if let CallEvent::Received { client_ip, forward_uri, request, upgradable } = request_event {
        if let Ok(uri) = target(forward_uri@, request@) {
            upgrade_is_asked_of_backend(request@.headers, uri.host->0, client_ip@);
        }
    }
}

/// A backend that switches to a protocol that the client did not ask for, or to none where the
/// client asked for one, is refused: the call ends with an error.
pub proof fn other_protocols_are_refused<Q, R>(
    state: CallState<R>,
    response: Response<R>,
    outcome: Option<(CallState<R>, CallAction<Q, R>)>,
)
    requires
        is_outcome(state, CallEvent::Responded(response), outcome),
        state is Sent,
        response.status == SWITCHING_PROTOCOLS,
        has_readable_upgrade(response@.headers),
        upgrade_type(response@.headers) != option_text(state->upgrade_type),
    ensures
        gives_up(
            outcome,
            ProxyErrorView::UpgradeError(
                mismatch_text(
                    upgrade_type(response@.headers),
                    option_text(state->upgrade_type),
                ),
            ),
        ),
{
}

/// Every response of the backend but one that switches protocols is replied to the client, whatever
/// its status: with that status, its body, and exactly its end-to-end headers. So an error is the
/// outcome of a response only where it switches protocols.
pub proof fn every_plain_response_is_replied<Q, R>(
    state: CallState<R>,
    response: Response<R>,
    outcome: Option<(CallState<R>, CallAction<Q, R>)>,
)
    requires
        call_ensures(call::<Q, R>, (state, CallEvent::Responded(response)), outcome),
        state is Sent,
    ensures
        response.status != 101 ==> {
            &&& outcome matches Some((next, action))
            &&& next is Finished
            &&& action matches CallAction::Reply(reply)
            &&& reply.status == response.status
            &&& reply.body == response.body
            &&& header_contents(reply.headers) == end_to_end(header_contents(response.headers))
        },
        outcome is None || (outcome->0).1 is Fail ==> response.status == 101,
{
}

/// A response that switches protocols is accepted if and only if it switches to the protocol that
/// was asked for and the client's connection can be taken over; else the call ends with an error
/// that says which of these failed. A protocol that cannot be read has no outcome.
pub proof fn every_switch_is_accepted_or_refused<Q, R>(
    asked: Option<String>,
    upgradable: bool,
    response: Response<R>,
    outcome: Option<(CallState<R>, CallAction<Q, R>)>,
)
    requires
        call_ensures(
            call::<Q, R>,
            (CallState::Sent { upgrade_type: asked, upgradable }, CallEvent::Responded(response)),
            outcome,
        ),
        response.status == 101,
    ensures
        ({
            let agreed = upgrade_type(header_contents(response.headers));
            let wanted = match asked {
                Some(protocol) => Some(protocol@),
                None => None,
            };
            if !has_readable_upgrade(header_contents(response.headers)) {
                outcome is None
            } else if agreed == wanted && upgradable {
                outcome == Some(
                    (CallState::Switching { response }, CallAction::<Q, R>::AwaitUpgrade),
                )
            } else {
                &&& outcome matches Some((next, action))
                &&& next is Finished
                &&& action matches CallAction::Fail(ProxyError::UpgradeError(text))
                &&& text@ == if agreed == wanted {
                    "request does not have an upgrade extension"@
                } else {
                    mismatch_text(agreed, wanted)
                }
            }
        }),
{
}

/// What a refused switch says: the backend's protocol first, then the one that was asked for. A
/// protocol of printable ASCII without `"` and `\` stands there in quotes, as it is.
pub proof fn refused_switches_name_both_protocols(
    agreed: Option<Seq<char>>,
    asked: Option<Seq<char>>,
    agreed_text: Seq<char>,
    asked_text: Seq<char>,
)
    requires
        match agreed {
            None => agreed_text == "None"@,
            Some(protocol) => if exists|i: int|
                0 <= i < protocol.len() && (#[trigger] protocol[i] < ' ' || protocol[i] > '~'
                    || protocol[i] == '"' || protocol[i] == '\\') {
                agreed_text == debug_text(agreed)
            } else {
                agreed_text == "Some(\""@ + protocol + "\")"@
            },
        },
        match asked {
            None => asked_text == "None"@,
            Some(protocol) => if exists|i: int|
                0 <= i < protocol.len() && (#[trigger] protocol[i] < ' ' || protocol[i] > '~'
                    || protocol[i] == '"' || protocol[i] == '\\') {
                asked_text == debug_text(asked)
            } else {
                asked_text == "Some(\""@ + protocol + "\")"@
            },
        },
    ensures
        mismatch_text(agreed, asked) == "backend tried to switch to protocol "@ + agreed_text
            + " when "@ + asked_text + " was requested"@,
{
    if let Some(protocol) = agreed {
        assert(forall|i: int| 0 <= i < protocol.len() ==> is_shown_as_is(#[trigger] protocol[i]) || (
        protocol[i] < ' ' || protocol[i] > '~' || protocol[i] == '"' || protocol[i] == '\\'));
        if exists|i: int|
            0 <= i < protocol.len() && (#[trigger] protocol[i] < ' ' || protocol[i] > '~'
                || protocol[i] == '"' || protocol[i] == '\\') {
            let i = choose|i: int|
                0 <= i < protocol.len() && (#[trigger] protocol[i] < ' ' || protocol[i] > '~'
                    || protocol[i] == '"' || protocol[i] == '\\');
            assert(!is_shown_as_is(protocol[i]));
        }
        assert(shown(agreed) == agreed_text);
    }
    if let Some(protocol) = asked {
        assert(forall|i: int| 0 <= i < protocol.len() ==> is_shown_as_is(#[trigger] protocol[i]) || (
        protocol[i] < ' ' || protocol[i] > '~' || protocol[i] == '"' || protocol[i] == '\\'));
        if exists|i: int|
            0 <= i < protocol.len() && (#[trigger] protocol[i] < ' ' || protocol[i] > '~'
                || protocol[i] == '"' || protocol[i] == '\\') {
            let i = choose|i: int|
                0 <= i < protocol.len() && (#[trigger] protocol[i] < ' ' || protocol[i] > '~'
                    || protocol[i] == '"' || protocol[i] == '\\');
            assert(!is_shown_as_is(protocol[i]));
        }
        assert(shown(asked) == asked_text);
    }
}

/// Every request that can be forwarded is sent, as the proxied request, or refused with its error;
/// there is nothing else only where the header map has not certainly room. What is remembered is
/// the protocol that the client asks for, and whether its connection can be taken over.
pub proof fn every_request_is_sent_or_refused<Q, R>(
    client_ip: String,
    forward_uri: String,
    request: Request<Q>,
    upgradable: bool,
    outcome: Option<(CallState<R>, CallAction<Q, R>)>,
)
    requires
        call_ensures(
            call::<Q, R>,
            (
                CallState::Idle,
                CallEvent::Received { client_ip, forward_uri, request, upgradable },
            ),
            outcome,
        ),
    ensures
        ({
            let headers = header_contents(request.headers);
            let upgrade = upgrade_type(headers);
            let target = parsed_uri(
                forwarded_text(
                    forward_uri@,
                    request.uri.path@,
                    match request.uri.query {
                        Some(query) => Some(query@),
                        None => None,
                    },
                ),
            );
            if !has_readable_upgrade(headers) || !is_proxyable(forward_uri@, request@, upgrade) {
                outcome is None
            } else {
                match target {
                    Err(err) => outcome == Some(
                        (
                            CallState::<R>::Finished,
                            CallAction::<Q, R>::Fail(ProxyError::InvalidUri(err)),
                        ),
                    ),
                    Ok(uri) => {
                        let host = uri.host->0;
                        let valid = is_header_value(encode_utf8(host)) && is_header_value(
                            encode_utf8(client_ip@),
                        );
                        match outcome {
                            Some((CallState::Sent { upgrade_type: asked, upgradable: can }, action)) => {
                                &&& valid
                                &&& can == upgradable
                                &&& asked is Some <==> upgrade is Some
                                &&& asked matches Some(protocol) ==> Some(protocol@) == upgrade
                                &&& action matches CallAction::Send(sent)
                                &&& sent.uri@ == uri
                                &&& sent.body == request.body
                                &&& header_contents(sent.headers) == proxied_headers(
                                    headers,
                                    host,
                                    upgrade,
                                    client_ip@,
                                )
                            },
                            Some((next, action)) => {
                                &&& !valid
                                &&& next is Finished
                                &&& action == CallAction::<Q, R>::Fail(
                                    ProxyError::ForwardHeaderError,
                                )
                            },
                            None => {
                                &&& valid
                                &&& !has_room(
                                    headers,
                                    2 + (if first_value_lists(headers, "te"@, "trailers"@) {
                                        1nat
                                    } else {
                                        0
                                    }) + if upgrade is Some {
                                        2nat
                                    } else {
                                        0
                                    },
                                )
                            },
                        }
                    },
                }
            }
        }),
{
}

/// What becomes of a call at the other events. A request that got no answer ends it with the text
/// of the client's error. A connection that was taken over ends it with a tunnel and the response
/// that switched protocols; one that could not be, with that error. Any event that does not
/// belong to the state has no outcome.
pub proof fn every_event_has_its_state<Q, R>(
    state: CallState<R>,
    event: CallEvent<Q, R>,
    outcome: Option<(CallState<R>, CallAction<Q, R>)>,
)
    requires
        call_ensures(call::<Q, R>, (state, event), outcome),
    ensures
        state is Finished ==> outcome is None,
        state is Idle && !(event is Received) ==> outcome is None,
        state is Sent && !(event is Responded || event is SendFailed) ==> outcome is None,
        state is Switching && !(event is Upgraded || event is UpgradeFailed) ==> outcome is None,
        state is Sent && event is SendFailed ==> {
            &&& outcome matches Some((next, action))
            &&& next is Finished
            &&& action matches CallAction::Fail(ProxyError::UpgradeError(text))
            &&& to_string_from_display_ensures::<hyper_util::client::legacy::Error>(
                &event->SendFailed_0,
                text,
            )
        },
        state is Switching && event is Upgraded ==> outcome == Some(
            (CallState::<R>::Finished, CallAction::<Q, R>::Tunnel(state->response)),
        ),
        state is Switching && event is UpgradeFailed ==> outcome == Some(
            (
                CallState::<R>::Finished,
                CallAction::<Q, R>::Fail(ProxyError::HyperError(event->UpgradeFailed_0)),
            ),
        ),
{
}

/// What is made in place of a request decides: a proxied request is sent, with what is to be
/// remembered; an error ends the call; and nothing has no outcome.
pub proof fn what_is_made_is_sent<Q, R>(
    proxied: Option<Result<Request<Q>, ProxyError>>,
    upgrade_type: Option<String>,
    upgradable: bool,
    outcome: Option<(CallState<R>, CallAction<Q, R>)>,
)
    requires
        call_ensures(send_proxied::<Q, R>, (proxied, upgrade_type, upgradable), outcome),
    ensures
        proxied is None ==> outcome is None,
        proxied matches Some(Ok(request)) ==> outcome == Some(
            (
                CallState::<R>::Sent { upgrade_type, upgradable },
                CallAction::<Q, R>::Send(request),
            ),
        ),
        proxied matches Some(Err(err)) ==> outcome == Some(
            (CallState::<R>::Finished, CallAction::<Q, R>::Fail(err)),
        ),
{
}

/// The outcomes that the laws of calls speak of are those of `call`.
pub proof fn calls_have_their_outcomes<Q, R>(
    state: CallState<R>,
    event: CallEvent<Q, R>,
    outcome: Option<(CallState<R>, CallAction<Q, R>)>,
)
    requires
        call_ensures(call::<Q, R>, (state, event), outcome),
    ensures
        is_outcome(state, event, outcome),
{
}

} // verus!
