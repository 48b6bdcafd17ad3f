//! Request targets.

use vstd::prelude::*;

verus! {

/// The authority of a URI: its text, and the host and port that the text names.
#[derive(Debug)]
pub struct Authority {
    pub text: String,
    pub host: String,
    pub port: Option<u16>,
}

/// A URI by its parts. `text` is the whole URI in its normal form. The path is empty where the URI
/// is an authority alone.
#[derive(Debug)]
pub struct Uri {
    pub text: String,
    pub scheme: Option<String>,
    pub authority: Option<Authority>,
    pub path: String,
    pub query: Option<String>,
}

/// The content of an [`Authority`].
#[verifier::ext_equal]
pub struct AuthorityView {
    pub text: Seq<char>,
    pub host: Seq<char>,
    pub port: Option<u16>,
}

/// The content of a [`Uri`].
#[verifier::ext_equal]
pub struct UriView {
    pub text: Seq<char>,
    pub scheme: Option<Seq<char>>,
    pub authority: Option<AuthorityView>,
    pub path: Seq<char>,
    pub query: Option<Seq<char>>,
}

impl DeepView for Authority {
    type V = AuthorityView;

    open spec fn deep_view(&self) -> AuthorityView {
        AuthorityView { text: self.text@, host: self.host@, port: self.port }
    }
}

impl DeepView for Uri {
    type V = UriView;

    open spec fn deep_view(&self) -> UriView {
        UriView {
            text: self.text@,
            scheme: self.scheme.deep_view(),
            authority: self.authority.deep_view(),
            path: self.path@,
            query: self.query.deep_view(),
        }
    }
}

impl Clone for Authority {
    fn clone(&self) -> (r: Self)
        ensures
            r.deep_view() == self.deep_view(),
    {
        Authority { text: self.text.clone(), host: self.host.clone(), port: self.port }
    }
}

fn cloned_text(text: &Option<String>) -> (r: Option<String>)
    ensures
        r.deep_view() == text.deep_view(),
{
    match text {
        Some(text) => Some(text.clone()),
        None => None,
    }
}

impl Clone for Uri {
    fn clone(&self) -> (r: Self)
        ensures
            r.deep_view() == self.deep_view(),
    {
        Uri {
            text: self.text.clone(),
            scheme: cloned_text(&self.scheme),
            authority: match &self.authority {
                Some(authority) => Some(authority.clone()),
                None => None,
            },
            path: self.path.clone(),
            query: cloned_text(&self.query),
        }
    }
}

/// What `http::Uri::from_str` makes of a text: the URI's parts, or the error's text.
pub uninterp spec fn parsed_uri(text: Seq<char>) -> Result<UriView, Seq<char>>;

/// What `url::Url::parse` makes of a text: the serialized URL, or the error's text.
pub uninterp spec fn parsed_url(text: Seq<char>) -> Result<Seq<char>, Seq<char>>;

/// Whether `text` is short enough to be read as a URI: up to 65534 bytes of UTF-8.
pub open spec fn is_short(text: Seq<char>) -> bool {
    vstd::utf8::encode_utf8(text).len() <= 65534
}

/// Whether the normal form of `uri` stands for `uri`, unless it is too long to be read.
pub open spec fn reads_back(uri: UriView) -> bool {
    is_short(uri.text) ==> parsed_uri(uri.text) == Ok::<UriView, Seq<char>>(uri)
}

/// Calls `http::Uri::from_str`, and reads the URI by `to_string`, `scheme_str`, `authority`, `path`
/// and `query`, its authority by `as_str`, `host` and `port_u16`. All of these depend on `text`
/// alone. What `to_string` writes is read back as the same parts: scheme, authority, path and query
/// stand in it as they are. It may be a character longer than `text`, a slash for an empty path,
/// and so too long.
#[verifier::external_body]
pub(crate) fn parse_uri(text: &str) -> (r: Result<Uri, String>)
    ensures
        crate::views::outcome(r) == parsed_uri(text@),
        r matches Ok(uri) ==> reads_back(uri.deep_view()),
{
    match text.parse::<http::Uri>() {
        Ok(uri) => Ok(Uri {
            text: uri.to_string(),
            scheme: uri.scheme_str().map(str::to_owned),
            authority: uri.authority().map(|authority| Authority {
                text: authority.as_str().to_owned(),
                host: authority.host().to_owned(),
                port: authority.port_u16(),
            }),
            path: uri.path().to_owned(),
            query: uri.query().map(str::to_owned),
        }),
        Err(error) => Err(error.to_string()),
    }
}

/// Calls `url::Url::parse`, and takes the URL by `as_str`. The outcome depends on `text` alone.
#[verifier::external_body]
pub(crate) fn parse_url(text: &str) -> (r: Result<String, String>)
    ensures
        crate::views::outcome(r) == parsed_url(text@),
{
    url::Url::parse(text).map(|url| url.as_str().to_owned()).map_err(|error| error.to_string())
}

} // verus!
