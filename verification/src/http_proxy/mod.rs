//! What the proxy decides about each request.

use vstd::prelude::*;
use vstd::string::StrSliceExecFns;

use crate::headers;
use crate::message::ProxyResponse;
use crate::plugins::PluginError;
use crate::text;

pub mod connect;
pub mod forward;
pub mod target;

verus! {

/// Why a request could not be forwarded.
#[derive(Debug)]
pub enum ProxyError {
    /// The target has no scheme, and there is no Host header.
    MissingHost,
    /// The Host header is no text.
    UnreadableHost,
    /// The Host header and the path make no URL.
    InvalidUrl { message: String },
    /// The URL of the Host header and the path is no request target.
    InvalidUri { message: String },
    /// The scheme of the target is not `http`.
    UnsupportedScheme,
    /// The target has no authority.
    MissingAuthority,
    /// The authority cannot stand in a header.
    InvalidAuthority,
    /// The Host header does not fit into the header map.
    TooManyHeaders,
    /// A plugin failed.
    Plugin { error: PluginError },
    /// A body could not be read, or the upstream could not be reached.
    Transport { message: String },
}

/// The content of a [`ProxyError`].
#[verifier::ext_equal]
pub enum ProxyErrorView {
    MissingHost,
    UnreadableHost,
    InvalidUrl { message: Seq<char> },
    InvalidUri { message: Seq<char> },
    UnsupportedScheme,
    MissingAuthority,
    InvalidAuthority,
    TooManyHeaders,
    Plugin { error: crate::plugins::PluginErrorView },
    Transport { message: Seq<char> },
}

impl DeepView for ProxyError {
    type V = ProxyErrorView;

    open spec fn deep_view(&self) -> ProxyErrorView {
        match *self {
            ProxyError::MissingHost => ProxyErrorView::MissingHost,
            ProxyError::UnreadableHost => ProxyErrorView::UnreadableHost,
            ProxyError::InvalidUrl { message } => ProxyErrorView::InvalidUrl { message: message@ },
            ProxyError::InvalidUri { message } => ProxyErrorView::InvalidUri { message: message@ },
            ProxyError::UnsupportedScheme => ProxyErrorView::UnsupportedScheme,
            ProxyError::MissingAuthority => ProxyErrorView::MissingAuthority,
            ProxyError::InvalidAuthority => ProxyErrorView::InvalidAuthority,
            ProxyError::TooManyHeaders => ProxyErrorView::TooManyHeaders,
            ProxyError::Plugin { error } => ProxyErrorView::Plugin { error: error.deep_view() },
            ProxyError::Transport { message } => ProxyErrorView::Transport { message: message@ },
        }
    }
}

impl ProxyErrorView {
    /// The text of the error.
    pub open spec fn text(self) -> Seq<char> {
        match self {
            ProxyErrorView::MissingHost => "origin-form request is missing Host header"@,
            ProxyErrorView::UnreadableHost => "failed to convert header to a str"@,
            ProxyErrorView::InvalidUrl { message } => message,
            ProxyErrorView::InvalidUri { message } => message,
            ProxyErrorView::UnsupportedScheme =>
                "only http upstream requests are supported for now"@,
            ProxyErrorView::MissingAuthority => "request target is missing authority"@,
            ProxyErrorView::InvalidAuthority => "failed to parse header value"@,
            ProxyErrorView::TooManyHeaders => "max size reached"@,
            ProxyErrorView::Plugin { error } => error.text(),
            ProxyErrorView::Transport { message } => message,
        }
    }
}

impl ProxyError {
    /// The text of the error.
    pub fn to_text(&self) -> (r: String)
        ensures
            r@ == self.deep_view().text(),
    {
        match self {
            ProxyError::MissingHost => "origin-form request is missing Host header".to_owned(),
            ProxyError::UnreadableHost => "failed to convert header to a str".to_owned(),
            ProxyError::InvalidUrl { message } => message.clone(),
            ProxyError::InvalidUri { message } => message.clone(),
            ProxyError::UnsupportedScheme =>
                "only http upstream requests are supported for now".to_owned(),
            ProxyError::MissingAuthority => "request target is missing authority".to_owned(),
            ProxyError::InvalidAuthority => "failed to parse header value".to_owned(),
            ProxyError::TooManyHeaders => "max size reached".to_owned(),
            ProxyError::Plugin { error } => error.to_text(),
            ProxyError::Transport { message } => message.clone(),
        }
    }
}

/// Which way a request takes.
#[derive(Debug, Clone, Copy, PartialEq, Eq, Structural)]
pub enum Route {
    /// A tunnel is opened; see [`connect::handle_connect_request`].
    Tunnel,
    /// The request is forwarded; see [`forward::forward`].
    Forward,
}

/// The way of a request with the method `method`: `CONNECT` alone asks for a tunnel.
pub fn handle_proxy_request(method: &str) -> (route: Route)
    ensures
        route == (if method@ == "CONNECT"@ {
            Route::Tunnel
        } else {
            Route::Forward
        }),
{
    if text::equal(method, "CONNECT") {
        Route::Tunnel
    } else {
        Route::Forward
    }
}

/// The content of a response that tells `text`.
pub open spec fn text_reply(status: u16, text: Seq<char>) -> crate::message::ResponseView {
    crate::message::ResponseView {
        status,
        headers: headers::no_headers().insert(
            "content-type"@,
            seq![vstd::utf8::encode_utf8("text/plain; charset=utf-8"@)],
        ),
        body: vstd::utf8::encode_utf8(text),
    }
}

proof fn plain_text_is_header_value()
    ensures
        headers::is_header_value("text/plain; charset=utf-8"@),
{
    reveal_strlit("text/plain; charset=utf-8");
    let value = "text/plain; charset=utf-8"@;
    assert(vstd::utf8::is_ascii_chars(value));
    vstd::utf8::is_ascii_chars_encode_utf8(value);
}

/// A response that tells `text`.
pub fn text_response(status: u16, text: &str) -> (r: ProxyResponse)
    ensures
        r.deep_view() == text_reply(status, text@),
{
    proof {
        plain_text_is_header_value();
    }
    let mut headers = headers::empty_headers();
    let name = headers::content_type_name();
    if let Ok(value) = headers::parse_value("text/plain; charset=utf-8") {
        let _added = headers::append(&mut headers, &name, value);
    }
    ProxyResponse { status, headers, body: text.as_bytes_vec() }
}

/// The text that answers a request that could not be forwarded.
pub open spec fn failure_text(error: ProxyErrorView) -> Seq<char> {
    "proxy request failed: "@ + error.text() + "\n"@
}

/// The answer to a request that could not be forwarded.
pub fn failure_response(error: &ProxyError) -> (r: ProxyResponse)
    ensures
        r.deep_view() == text_reply(502, failure_text(error.deep_view())),
{
    text_response(
        502,
        text::join3("proxy request failed: ", error.to_text().as_str(), "\n").as_str(),
    )
}

/// Whether a response with these headers is a stream of server-sent events.
pub open spec fn is_event_stream(held: Map<Seq<char>, Seq<Seq<u8>>>) -> bool {
    &&& held.dom().contains("content-type"@)
    &&& headers::is_visible(held["content-type"@][0])
    &&& text::ascii_lowered(
        text::trimmed(text::before(headers::ascii_text(held["content-type"@][0]), ';')),
    ) == text::ascii_lowered("text/event-stream"@)
}

/// Whether a response with these headers is a stream of server-sent events: the media type
/// counts, in either case, and its parameters do not.
pub fn is_sse_response(response_headers: &http::HeaderMap) -> (r: bool)
    ensures
        r == is_event_stream(headers::contents(*response_headers)),
{
    let name = headers::content_type_name();
    match headers::first_value(response_headers, &name) {
        Some(value) => match headers::value_text(value) {
            Ok(content_type) => {
                let media_type = text::until(content_type.as_str(), ';');
                text::equal_ignoring_case(
                    text::trim(media_type.as_str()).as_str(),
                    "text/event-stream",
                )
            },
            Err(_) => false,
        },
        None => false,
    }
}

/// Whether `byte` is `c`, or the capital letter of which `c` is the small one.
pub open spec fn is_letter(byte: u8, c: char) -> bool {
    byte == c as u32 || (65 <= byte <= 90 && byte + 32 == c as u32)
}

/// Whether all of `bytes` from `from` to `to` are spaces and tabs.
pub open spec fn is_blank(bytes: Seq<u8>, from: int, to: int) -> bool {
    forall|i: int| from <= i < to ==> #[trigger] bytes[i] == 32 || bytes[i] == 9
}

/// Whether the 17 characters of `text/event-stream` stand in `bytes` at `from`, in either case,
/// with nothing but spaces and tabs around them up to `stop`, where a semicolon stands or the value
/// ends.
pub open spec fn event_stream_stands_at(bytes: Seq<u8>, from: int, stop: int) -> bool {
    &&& 0 <= from
    &&& from + 17 <= stop <= bytes.len()
    &&& is_blank(bytes, 0, from)
    &&& is_blank(bytes, from + 17, stop)
    &&& stop < bytes.len() ==> bytes[stop] == 59
    &&& forall|i: int| 0 <= i < 17 ==> is_letter(#[trigger] bytes[from + i], "text/event-stream"@[i])
}

proof fn event_stream_is_small()
    ensures
        "text/event-stream"@.len() == 17,
        text::ascii_lowered("text/event-stream"@) == "text/event-stream"@,
        forall|i: int|
            0 <= i < 17 ==> 33 <= (#[trigger] "text/event-stream"@[i]) as u32 <= 122
                && "text/event-stream"@[i] != ';' && ("text/event-stream"@[i] as u32 <= 64
                || "text/event-stream"@[i] as u32 >= 91),
{
    reveal_strlit("text/event-stream");
    let name = "text/event-stream"@;
    assert forall|i: int| 0 <= i < 17 implies 33 <= (#[trigger] name[i]) as u32 <= 122 && name[i]
        != ';' && (name[i] as u32 <= 64 || name[i] as u32 >= 91) by {
        assert(i == 0 || i == 1 || i == 2 || i == 3 || i == 4 || i == 5 || i == 6 || i == 7 || i
            == 8 || i == 9 || i == 10 || i == 11 || i == 12 || i == 13 || i == 14 || i == 15 || i
            == 16);
    }
    assert(text::ascii_lowered(name) =~= name);
}

/// A response is a stream of events if and only if its first content type consists of visible ASCII
/// characters, and up to its first semicolon, and without the spaces and tabs around it, it is
/// `text/event-stream`, in either case.
pub proof fn event_streams_are_told_by_their_media_type(held: Map<Seq<char>, Seq<Seq<u8>>>)
    ensures
        is_event_stream(held) <==> {
            &&& held.dom().contains("content-type"@)
            &&& forall|i: int|
                0 <= i < held["content-type"@][0].len() ==> (#[trigger] held["content-type"@][0][i]
                    == 9 || 32 <= held["content-type"@][0][i] <= 126)
            &&& exists|from: int, stop: int|
                event_stream_stands_at(held["content-type"@][0], from, stop)
        },
{
    event_stream_is_small();
    let name = "text/event-stream"@;
    let bytes = held["content-type"@][0];
    let value = headers::ascii_text(bytes);
    if is_event_stream(held) {
        text::before_goes_on_until_the_mark(value, ';');
        let media = text::before(value, ';');
        let stop = media.len() as int;
        text::texts_can_be_trimmed(media);
        let (from, to) = choose|from: int, to: int| text::trims_to(media, from, to);
        text::trimming_leaves_what_stands_between(media, from, to);
        let core = media.subrange(from, to);
        assert(text::ascii_lowered(core) == name);
        assert(text::ascii_lowered(core).len() == core.len());
        assert forall|i: int| 0 <= i < stop implies #[trigger] media[i] == bytes[i] as char by {
            assert(media[i] == value[i]);
        }
        assert forall|i: int| 0 <= i < from || to <= i < stop implies #[trigger] bytes[i] == 32
            || bytes[i] == 9 by {
            assert(text::is_whitespace(media[i]));
            assert(headers::is_visible_byte(bytes[i]));
        }
        assert forall|i: int| 0 <= i < 17 implies is_letter(#[trigger] bytes[from + i], name[i]) by {
            assert(core[i] == media[from + i]);
            assert(text::ascii_lowered(core)[i] == name[i]);
            text::lower_case_changes_capitals_only(core, i);
            assert(headers::is_visible_byte(bytes[from + i]));
        }
        if stop < bytes.len() {
            assert(value[stop] == ';');
        }
        assert(event_stream_stands_at(bytes, from, stop));
        assert forall|i: int| 0 <= i < bytes.len() implies (#[trigger] bytes[i] == 9 || 32
            <= bytes[i] <= 126) by {
            assert(headers::is_visible_byte(bytes[i]));
        }
    }
    if held.dom().contains("content-type"@) && (forall|i: int|
        0 <= i < bytes.len() ==> (#[trigger] bytes[i] == 9 || 32 <= bytes[i] <= 126)) && (exists|
        from: int,
        stop: int,
    | event_stream_stands_at(bytes, from, stop)) {
        let (from, stop) = choose|from: int, stop: int| event_stream_stands_at(bytes, from, stop);
        assert forall|i: int| 0 <= i < bytes.len() implies headers::is_visible_byte(
            #[trigger] bytes[i],
        ) by {}
        assert forall|i: int| 0 <= i < stop implies #[trigger] value[i] != ';' by {
            if from <= i < from + 17 {
                assert(is_letter(bytes[from + (i - from)], name[i - from]));
            }
        }
        text::before_is_what_stands_before(value, ';', stop);
        let media = text::before(value, ';');
        assert forall|i: int| 0 <= i < 17 implies text::ascii_lower(
            #[trigger] media[from + i],
        ) == name[i] && !text::is_whitespace(media[from + i]) by {
            assert(is_letter(bytes[from + i], name[i]));
            assert(media[from + i] == bytes[from + i] as char);
        }
        assert(!text::is_whitespace(media[from + 0]));
        assert(!text::is_whitespace(media[from + 16]));
        assert(text::trims_to(media, from, from + 17));
        text::trimming_leaves_what_stands_between(media, from, from + 17);
        let core = media.subrange(from, from + 17);
        assert forall|i: int| 0 <= i < 17 implies text::ascii_lower(#[trigger] core[i])
            == name[i] by {
            assert(core[i] == media[from + i]);
        }
        assert(text::ascii_lowered(core) =~= name);
    }
}

/// A text is answered with its status and in its own words, as plain text in UTF-8 and with no
/// other header.
pub proof fn texts_are_told_as_they_are(status: u16, text: Seq<char>)
    ensures
        text_reply(status, text).status == status,
        text_reply(status, text).headers.dom() == set!["content-type"@],
        text_reply(status, text).headers["content-type"@] == seq![
            vstd::utf8::encode_utf8("text/plain; charset=utf-8"@),
        ],
        vstd::utf8::valid_utf8(text_reply(status, text).body),
        vstd::utf8::decode_utf8(text_reply(status, text).body) == text,
{
    assert(text_reply(status, text).headers.dom() =~= set!["content-type"@]);
    vstd::utf8::encode_utf8_valid_utf8(text);
    vstd::utf8::encode_utf8_decode_utf8(text);
}

/// A failure is told with the message of what failed, whole and unchanged.
pub proof fn failures_quote_their_message(
    message: Seq<char>,
    plugin: Seq<char>,
)
    ensures
        failure_text(ProxyErrorView::InvalidUrl { message }) == "proxy request failed: "@ + message
            + "\n"@,
        failure_text(ProxyErrorView::InvalidUri { message }) == "proxy request failed: "@ + message
            + "\n"@,
        failure_text(ProxyErrorView::Transport { message }) == "proxy request failed: "@ + message
            + "\n"@,
        failure_text(
            ProxyErrorView::Plugin {
                error: crate::plugins::PluginErrorView::Failed { plugin, message },
            },
        ) == "proxy request failed: "@ + ("plugin "@ + plugin + " failed: "@ + message) + "\n"@,
        failure_text(ProxyErrorView::MissingHost) == "proxy request failed: "@
            + "origin-form request is missing Host header"@ + "\n"@,
        failure_text(ProxyErrorView::UnreadableHost) == "proxy request failed: "@
            + "failed to convert header to a str"@ + "\n"@,
        failure_text(ProxyErrorView::UnsupportedScheme) == "proxy request failed: "@
            + "only http upstream requests are supported for now"@ + "\n"@,
        failure_text(ProxyErrorView::MissingAuthority) == "proxy request failed: "@
            + "request target is missing authority"@ + "\n"@,
        failure_text(ProxyErrorView::InvalidAuthority) == "proxy request failed: "@
            + "failed to parse header value"@ + "\n"@,
        failure_text(ProxyErrorView::TooManyHeaders) == "proxy request failed: "@
            + "max size reached"@ + "\n"@,
{
}

} // verus!
