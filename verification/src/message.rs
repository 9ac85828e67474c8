//! Requests and responses, as far as the proxy looks into them.

use hyper::header::{HeaderMap, HeaderValue};
use vstd::prelude::*;

use crate::header_map::{header_contents, HeaderContents};
use crate::uri::{Uri, UriView};

verus! {

/// A request. `body` is all that the proxy passes on without looking at it.
pub struct Request<B> {
    pub uri: Uri,
    pub headers: HeaderMap<HeaderValue>,
    pub body: B,
}

/// What a request holds.
#[verifier::ext_equal]
pub struct RequestView<B> {
    pub uri: UriView,
    pub headers: HeaderContents,
    pub body: B,
}

impl<B> View for Request<B> {
    type V = RequestView<B>;

    open spec fn view(&self) -> RequestView<B> {
        RequestView { uri: self.uri@, headers: header_contents(self.headers), body: self.body }
    }
}

/// A response. `body` is all that the proxy passes on without looking at it.
pub struct Response<B> {
    pub status: u16,
    pub headers: HeaderMap<HeaderValue>,
    pub body: B,
}

/// What a response holds.
#[verifier::ext_equal]
pub struct ResponseView<B> {
    pub status: u16,
    pub headers: HeaderContents,
    pub body: B,
}

impl<B> View for Response<B> {
    type V = ResponseView<B>;

    open spec fn view(&self) -> ResponseView<B> {
        ResponseView {
            status: self.status,
            headers: header_contents(self.headers),
            body: self.body,
        }
    }
}

/// All of a message is seen: its URI or its status, its headers and its body.
pub proof fn whole_messages_are_seen<B>(request: Request<B>, response: Response<B>)
    ensures
        request@.uri == request.uri@,
        request@.headers == header_contents(request.headers),
        request@.body == request.body,
        response@.status == response.status,
        response@.headers == header_contents(response.headers),
        response@.body == response.body,
{
}

} // verus!
