//! The requests and responses that pass through the proxy.

use vstd::prelude::*;

use crate::uri::Uri;

verus! {

/// A request with its whole body.
#[derive(Debug)]
pub struct ProxyRequest {
    pub method: String,
    pub uri: Uri,
    pub headers: http::HeaderMap,
    pub body: Vec<u8>,
}

/// A response with its whole body.
#[derive(Debug)]
pub struct ProxyResponse {
    pub status: u16,
    pub headers: http::HeaderMap,
    pub body: Vec<u8>,
}

/// The content of a [`ProxyRequest`].
#[verifier::ext_equal]
pub struct RequestView {
    pub method: Seq<char>,
    pub uri: crate::uri::UriView,
    pub headers: Map<Seq<char>, Seq<Seq<u8>>>,
    pub body: Seq<u8>,
}

/// The content of a [`ProxyResponse`].
#[verifier::ext_equal]
pub struct ResponseView {
    pub status: u16,
    pub headers: Map<Seq<char>, Seq<Seq<u8>>>,
    pub body: Seq<u8>,
}

impl DeepView for ProxyRequest {
    type V = RequestView;

    open spec fn deep_view(&self) -> RequestView {
        RequestView {
            method: self.method@,
            uri: self.uri.deep_view(),
            headers: crate::headers::contents(self.headers),
            body: self.body@,
        }
    }
}

impl DeepView for ProxyResponse {
    type V = ResponseView;

    open spec fn deep_view(&self) -> ResponseView {
        ResponseView {
            status: self.status,
            headers: crate::headers::contents(self.headers),
            body: self.body@,
        }
    }
}

} // verus!
