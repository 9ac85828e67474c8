//! The parts of a URI.

use hyper::http::uri::InvalidUri;
use vstd::prelude::*;

use crate::text::option_text;

verus! {

/// `hyper::http::uri::InvalidUri`, opaque: the error of parsing a URI.
#[verifier::external_type_specification]
#[verifier::external_body]
pub struct ExInvalidUri(hyper::http::uri::InvalidUri);

/// A URI, by its parts. `host` is the host within `authority`.
#[derive(Debug, PartialEq, Eq)]
pub struct Uri {
    pub scheme: Option<String>,
    pub authority: Option<String>,
    pub host: Option<String>,
    pub path: String,
    pub query: Option<String>,
}

/// The texts of the parts of a URI.
pub struct UriView {
    pub scheme: Option<Seq<char>>,
    pub authority: Option<Seq<char>>,
    pub host: Option<Seq<char>>,
    pub path: Seq<char>,
    pub query: Option<Seq<char>>,
}

impl View for Uri {
    type V = UriView;

    open spec fn view(&self) -> UriView {
        UriView {
            scheme: option_text(self.scheme),
            authority: option_text(self.authority),
            host: option_text(self.host),
            path: self.path@,
            query: option_text(self.query),
        }
    }
}

/// What a result of `parse_uri` holds.
pub open spec fn parse_result(parsed: Result<Uri, InvalidUri>) -> Result<UriView, InvalidUri> {
    match parsed {
        Ok(uri) => Ok(uri@),
        Err(err) => Err(err),
    }
}

/// The parts of the URI that a text spells, or the error of parsing it where it spells none.
pub uninterp spec fn parsed_uri(text: Seq<char>) -> Result<UriView, InvalidUri>;

/// `hyper::Uri::from_str`: the URI that the text spells, taken apart by `scheme_str`,
/// `authority`, `host`, `path` and `query`, or an error. Which texts are URIs, what their parts
/// are, and what is wrong with the other texts, is a function of the text alone; nothing more of
/// it is stated.
#[verifier::external_body]
pub(crate) fn parse_uri(text: &str) -> (uri: Result<Uri, InvalidUri>)
    ensures
        parse_result(uri) == parsed_uri(text@),
{
    let uri: hyper::Uri = text.parse()?;
    Ok(
        Uri {
            scheme: uri.scheme_str().map(|s| s.to_string()),
            authority: uri.authority().map(|a| a.as_str().to_string()),
            host: uri.host().map(|h| h.to_string()),
            path: uri.path().to_string(),
            query: uri.query().map(|q| q.to_string()),
        },
    )
}

/// Every part of a URI is seen, and it is seen whether it is there.
pub proof fn all_parts_are_seen(uri: Uri, parsed: Result<Uri, InvalidUri>)
    ensures
        uri.scheme matches Some(scheme) ==> uri@.scheme == Some(scheme@),
        uri.scheme is None ==> uri@.scheme is None,
        uri.authority matches Some(authority) ==> uri@.authority == Some(authority@),
        uri.authority is None ==> uri@.authority is None,
        uri.host matches Some(host) ==> uri@.host == Some(host@),
        uri.host is None ==> uri@.host is None,
        uri@.path == uri.path@,
        uri.query matches Some(query) ==> uri@.query == Some(query@),
        uri.query is None ==> uri@.query is None,
        parsed matches Ok(u) ==> parse_result(parsed) == Ok::<UriView, InvalidUri>(u@),
        parsed matches Err(err) ==> parse_result(parsed) == Err::<UriView, InvalidUri>(err),
{
}

} // verus!
