//! Why a request could not be proxied.

use vstd::prelude::*;
use vstd::std_specs::convert::FromSpecImpl;
use vstd::string::to_string_from_display_ensures;

verus! {

/// `hyper::Error`, opaque: what went wrong on a connection.
#[verifier::external_type_specification]
#[verifier::external_body]
pub struct ExHyperError(hyper::Error);

/// `hyper::header::ToStrError`, opaque: the error of reading a header value as text.
#[verifier::external_type_specification]
#[verifier::external_body]
pub struct ExToStrError(hyper::header::ToStrError);

/// `hyper_util::client::legacy::Error`, opaque: what went wrong in the HTTP client.
#[verifier::external_type_specification]
#[verifier::external_body]
pub struct ExClientError(hyper_util::client::legacy::Error);

/// Why a request could not be proxied.
#[derive(Debug)]
pub enum ProxyError {
    /// The forwarding address and the request do not form a URI.
    InvalidUri(hyper::http::uri::InvalidUri),
    /// A connection failed.
    HyperError(hyper::Error),
    /// A header of the proxied request cannot be written.
    ForwardHeaderError,
    /// The request could not be sent, or the switch of protocols failed.
    UpgradeError(String),
}

/// A `ProxyError`, with the text of an `UpgradeError`.
pub enum ProxyErrorView {
    InvalidUri(hyper::http::uri::InvalidUri),
    HyperError(hyper::Error),
    ForwardHeaderError,
    UpgradeError(Seq<char>),
}

impl View for ProxyError {
    type V = ProxyErrorView;

    open spec fn view(&self) -> ProxyErrorView {
        match self {
            ProxyError::InvalidUri(err) => ProxyErrorView::InvalidUri(*err),
            ProxyError::HyperError(err) => ProxyErrorView::HyperError(*err),
            ProxyError::ForwardHeaderError => ProxyErrorView::ForwardHeaderError,
            ProxyError::UpgradeError(text) => ProxyErrorView::UpgradeError(text@),
        }
    }
}

impl ProxyError {
    /// The error as text.
    pub fn message(&self) -> (text: String)
        ensures
            match self {
                ProxyError::InvalidUri(err) => to_string_from_display_ensures::<
                    hyper::http::uri::InvalidUri,
                >(err, text),
                ProxyError::HyperError(err) => to_string_from_display_ensures::<hyper::Error>(
                    err,
                    text,
                ),
                ProxyError::ForwardHeaderError => text@ == "ForwardHeaderError"@,
                ProxyError::UpgradeError(reason) => text@ == "UpgradeError: "@ + reason@,
            },
    {
        match self {
            ProxyError::InvalidUri(err) => err.to_string(),
            ProxyError::HyperError(err) => err.to_string(),
            ProxyError::ForwardHeaderError => "ForwardHeaderError".to_owned(),
            ProxyError::UpgradeError(reason) => {
                let mut text: String = "UpgradeError: ".to_owned();
                text.append(reason.as_str());
                text
            },
        }
    }
}

impl From<hyper::http::uri::InvalidUri> for ProxyError {
    fn from(err: hyper::http::uri::InvalidUri) -> (r: ProxyError) {
        ProxyError::InvalidUri(err)
    }
}

impl FromSpecImpl<hyper::http::uri::InvalidUri> for ProxyError {
    open spec fn obeys_from_spec() -> bool {
        true
    }

    open spec fn from_spec(err: hyper::http::uri::InvalidUri) -> ProxyError {
        ProxyError::InvalidUri(err)
    }
}

impl From<hyper::Error> for ProxyError {
    fn from(err: hyper::Error) -> (r: ProxyError) {
        ProxyError::HyperError(err)
    }
}

impl FromSpecImpl<hyper::Error> for ProxyError {
    open spec fn obeys_from_spec() -> bool {
        true
    }

    open spec fn from_spec(err: hyper::Error) -> ProxyError {
        ProxyError::HyperError(err)
    }
}

impl From<hyper::header::ToStrError> for ProxyError {
    fn from(_err: hyper::header::ToStrError) -> (r: ProxyError) {
        ProxyError::ForwardHeaderError
    }
}

impl FromSpecImpl<hyper::header::ToStrError> for ProxyError {
    open spec fn obeys_from_spec() -> bool {
        true
    }

    open spec fn from_spec(err: hyper::header::ToStrError) -> ProxyError {
        ProxyError::ForwardHeaderError
    }
}

impl From<hyper::header::InvalidHeaderValue> for ProxyError {
    fn from(_err: hyper::header::InvalidHeaderValue) -> (r: ProxyError) {
        ProxyError::ForwardHeaderError
    }
}

impl FromSpecImpl<hyper::header::InvalidHeaderValue> for ProxyError {
    open spec fn obeys_from_spec() -> bool {
        true
    }

    open spec fn from_spec(err: hyper::header::InvalidHeaderValue) -> ProxyError {
        ProxyError::ForwardHeaderError
    }
}

impl From<hyper_util::client::legacy::Error> for ProxyError {
    fn from(err: hyper_util::client::legacy::Error) -> (r: ProxyError)
        ensures
            r matches ProxyError::UpgradeError(text) && to_string_from_display_ensures::<
                hyper_util::client::legacy::Error,
            >(&err, text),
    {
        ProxyError::UpgradeError(err.to_string())
    }
}

impl FromSpecImpl<hyper_util::client::legacy::Error> for ProxyError {
    open spec fn obeys_from_spec() -> bool {
        false
    }

    open spec fn from_spec(err: hyper_util::client::legacy::Error) -> ProxyError {
        arbitrary()
    }
}

/// Every error is told apart from every other, and what it carries is seen.
pub proof fn errors_are_told_apart(err: ProxyError)
    ensures
        match err {
            ProxyError::InvalidUri(inner) => err@ == ProxyErrorView::InvalidUri(inner),
            ProxyError::HyperError(inner) => err@ == ProxyErrorView::HyperError(inner),
            ProxyError::ForwardHeaderError => err@ == ProxyErrorView::ForwardHeaderError,
            ProxyError::UpgradeError(text) => err@ == ProxyErrorView::UpgradeError(text@),
        },
{
}

/// The error of the URI parser and that of a connection are carried as they are; each error of
/// reading or writing a header is the same one; and a client's error is carried as text.
pub proof fn errors_are_carried(
    uri_error: hyper::http::uri::InvalidUri,
    connection_error: hyper::Error,
    read_error: hyper::header::ToStrError,
    write_error: hyper::header::InvalidHeaderValue,
    client_error: hyper_util::client::legacy::Error,
    r: ProxyError,
)
    ensures
        call_ensures(
            <ProxyError as From<hyper::http::uri::InvalidUri>>::from,
            (uri_error,),
            r,
        ) ==> r == ProxyError::InvalidUri(uri_error),
        call_ensures(<ProxyError as From<hyper::Error>>::from, (connection_error,), r) ==> r
            == ProxyError::HyperError(connection_error),
        call_ensures(<ProxyError as From<hyper::header::ToStrError>>::from, (read_error,), r) ==> r
            == ProxyError::ForwardHeaderError,
        call_ensures(
            <ProxyError as From<hyper::header::InvalidHeaderValue>>::from,
            (write_error,),
            r,
        ) ==> r == ProxyError::ForwardHeaderError,
        call_ensures(
            <ProxyError as From<hyper_util::client::legacy::Error>>::from,
            (client_error,),
            r,
        ) ==> (r matches ProxyError::UpgradeError(text) && to_string_from_display_ensures::<
            hyper_util::client::legacy::Error,
        >(&client_error, text)),
{
}

/// What an error says: what the error that it carries says, or its kind, with the reason behind
/// a colon and a blank.
pub proof fn errors_say_what_they_are(err: &ProxyError, text: String)
    requires
        call_ensures(ProxyError::message, (err,), text),
    ensures
        *err matches ProxyError::InvalidUri(inner) ==> to_string_from_display_ensures::<
            hyper::http::uri::InvalidUri,
        >(&inner, text),
        *err matches ProxyError::HyperError(inner) ==> to_string_from_display_ensures::<
            hyper::Error,
        >(&inner, text),
        *err is ForwardHeaderError ==> text@ == "ForwardHeaderError"@,
        *err matches ProxyError::UpgradeError(reason) ==> text@ == "UpgradeError: "@ + reason@,
{
}

} // verus!
