//! Where a request is to go.

use vstd::prelude::*;
use vstd::string::StringExecFns;

use crate::headers;
use crate::http_proxy::ProxyError;
use crate::message::ProxyRequest;
use crate::text;
use crate::uri;
use crate::uri::Uri;

verus! {

/// The URL that a Host header and the path and query of a target make.
pub open spec fn origin_url(host: Seq<char>, path: Seq<char>, query: Option<Seq<char>>) -> Seq<
    char,
> {
    "http://"@ + host + (if path.len() == 0 {
        "/"@
    } else {
        path
    }) + (match query {
        Some(query) => "?"@ + query,
        None => Seq::empty(),
    })
}

/// The URL that a Host header and the path and query of a target make.
pub fn origin_url_text(host: &str, path: &str, query: &Option<String>) -> (r: String)
    ensures
        r@ == origin_url(host@, path@, query.deep_view()),
{
    let mut url = text::join2("http://", host);
    if path.is_empty() {
        url.append("/");
    } else {
        url.append(path);
    }
    if let Some(query) = query {
        url.append(text::join2("?", query.as_str()).as_str());
    }
    assert(url@ =~= origin_url(host@, path@, query.deep_view()));
    url
}

/// The absolute target of a request whose own target has no scheme.
pub open spec fn absolute_uri(target: crate::uri::UriView, host: Option<Seq<u8>>) -> Result<
    crate::uri::UriView,
    crate::http_proxy::ProxyErrorView,
> {
    match host {
        None => Err(crate::http_proxy::ProxyErrorView::MissingHost),
        Some(bytes) => if !headers::is_visible(bytes) {
            Err(crate::http_proxy::ProxyErrorView::UnreadableHost)
        } else {
            match uri::parsed_url(
                origin_url(headers::ascii_text(bytes), target.path, target.query),
            ) {
                Err(message) => Err(crate::http_proxy::ProxyErrorView::InvalidUrl { message }),
                Ok(url) => match uri::parsed_uri(url) {
                    Err(message) => Err(crate::http_proxy::ProxyErrorView::InvalidUri { message }),
                    Ok(absolute) => Ok(absolute),
                },
            }
        },
    }
}

/// The absolute target of a request whose own target has no scheme: the path of the target on the
/// host of the Host header.
pub fn absolute_uri_from_origin_form(target: &Uri, host: Option<&http::HeaderValue>) -> (r: Result<
    Uri,
    ProxyError,
>)
    ensures
        crate::views::outcome(r) == absolute_uri(
            target.deep_view(),
            match host {
                Some(value) => Some(headers::value_bytes(*value)),
                None => None,
            },
        ),
        r matches Ok(absolute) ==> uri::reads_back(absolute.deep_view()),
{
    let host = match host {
        Some(value) => value,
        None => return Err(ProxyError::MissingHost),
    };
    let host = match headers::value_text(host) {
        Ok(text) => text,
        Err(_) => return Err(ProxyError::UnreadableHost),
    };
    let url = origin_url_text(host.as_str(), target.path.as_str(), &target.query);
    match uri::parse_url(url.as_str()) {
        Ok(url) => match uri::parse_uri(url.as_str()) {
            Ok(absolute) => Ok(absolute),
            Err(message) => Err(ProxyError::InvalidUri { message }),
        },
        Err(message) => Err(ProxyError::InvalidUrl { message }),
    }
}

/// `request` on its way to `target`: the Host header names the authority of the target.
pub open spec fn retargeted(
    request: crate::message::RequestView,
    target: crate::uri::UriView,
) -> Result<crate::message::RequestView, crate::http_proxy::ProxyErrorView> {
    if target.scheme != Some("http"@) {
        Err(crate::http_proxy::ProxyErrorView::UnsupportedScheme)
    } else {
        match target.authority {
            None => Err(crate::http_proxy::ProxyErrorView::MissingAuthority),
            Some(authority) => if !headers::is_header_value(authority.text) {
                Err(crate::http_proxy::ProxyErrorView::InvalidAuthority)
            } else {
                Ok(
                    crate::message::RequestView {
                        uri: target,
                        headers: request.headers.insert(
                            "host"@,
                            seq![vstd::utf8::encode_utf8(authority.text)],
                        ),
                        ..request
                    },
                )
            },
        }
    }
}

/// Whether `actual` is `expected`, or the refusal of a new Host header in a map of very many names.
pub open spec fn meets(
    actual: Result<crate::message::RequestView, crate::http_proxy::ProxyErrorView>,
    expected: Result<crate::message::RequestView, crate::http_proxy::ProxyErrorView>,
    request: crate::message::RequestView,
) -> bool {
    ||| actual == expected
    ||| {
        &&& expected matches Ok(sent)
        &&& sent.headers != request.headers
        &&& request.headers.dom().len() >= headers::roomy_names()
        &&& actual == Err::<crate::message::RequestView, _>(
            crate::http_proxy::ProxyErrorView::TooManyHeaders,
        )
    }
}

fn same_bytes(a: &[u8], b: &[u8]) -> (r: bool)
    ensures
        r == (a@ == b@),
{
    if a.len() != b.len() {
        return false;
    }
    let mut at: usize = 0;
    while at < a.len()
        invariant
            a@.len() == b@.len(),
            at <= a@.len(),
            a@.take(at as int) == b@.take(at as int),
        decreases a@.len() - at,
    {
        if a[at] != b[at] {
            return false;
        }
        assert(a@.take(at + 1) == a@.take(at as int).push(a@[at as int]));
        assert(b@.take(at + 1) == b@.take(at as int).push(b@[at as int]));
        at = at + 1;
    }
    assert(a@.take(at as int) == a@ && b@.take(at as int) == b@);
    true
}

/// Whether `value` is the one value under `name`.
fn is_only_value(
    held: &http::HeaderMap,
    name: &http::HeaderName,
    value: &http::HeaderValue,
) -> (r: bool)
    ensures
        r == (headers::values_under(headers::contents(*held), headers::name_text(*name))
            == seq![headers::value_bytes(*value)]),
{
    let values = headers::all_values(held, name);
    let ghost views = headers::value_views(values@);
    if values.len() == 1 {
        let same = same_bytes(headers::value_slice(&values[0]), headers::value_slice(value));
        assert(views[0] == headers::value_bytes(values@[0]));
        assert(same ==> views =~= seq![headers::value_bytes(*value)]);
        same
    } else {
        assert(views.len() != 1);
        false
    }
}

fn is_http(scheme: &Option<String>) -> (r: bool)
    ensures
        r == (scheme.deep_view() == Some("http"@)),
{
    match scheme {
        Some(scheme) => text::equal(scheme.as_str(), "http"),
        None => false,
    }
}

/// Sends `request` on its way to `target`: only plain HTTP is spoken, to the authority that the
/// target names, and the Host header says which it is.
pub fn retarget(request: ProxyRequest, target: Uri) -> (r: Result<ProxyRequest, ProxyError>)
    ensures
        meets(
            crate::views::outcome(r),
            retargeted(request.deep_view(), target.deep_view()),
            request.deep_view(),
        ),
{
    if !is_http(&target.scheme) {
        return Err(ProxyError::UnsupportedScheme);
    }
    let value = match &target.authority {
        Some(authority) => match headers::parse_value(authority.text.as_str()) {
            Ok(value) => value,
            Err(_) => return Err(ProxyError::InvalidAuthority),
        },
        None => return Err(ProxyError::MissingAuthority),
    };
    let mut request_headers = request.headers;
    let name = headers::host_name();
    let ghost held = headers::contents(request_headers);
    if is_only_value(&request_headers, &name, &value) {
        assert(headers::values_under(held, "host"@).len() == 1);
        assert(held.insert("host"@, seq![headers::value_bytes(value)]) =~= held);
        return Ok(
            ProxyRequest {
                method: request.method,
                uri: target,
                headers: request_headers,
                body: request.body,
            },
        );
    }
    assert(held.insert("host"@, seq![headers::value_bytes(value)])["host"@] == seq![
        headers::value_bytes(value),
    ]);
    match headers::replace(&mut request_headers, &name, value) {
        Ok(()) => Ok(
            ProxyRequest {
                method: request.method,
                uri: target,
                headers: request_headers,
                body: request.body,
            },
        ),
        Err(_) => Err(ProxyError::TooManyHeaders),
    }
}

/// The first value of the Host header, if there is one.
pub open spec fn host_of(held: Map<Seq<char>, Seq<Seq<u8>>>) -> Option<Seq<u8>> {
    if held.dom().contains("host"@) {
        Some(held["host"@][0])
    } else {
        None
    }
}

/// The absolute target of `request`.
pub open spec fn target_of(request: crate::message::RequestView) -> Result<
    crate::uri::UriView,
    crate::http_proxy::ProxyErrorView,
> {
    match request.uri.scheme {
        Some(_) => Ok(request.uri),
        None => absolute_uri(request.uri, host_of(request.headers)),
    }
}

/// `request` as it is to be forwarded.
pub open spec fn normalized(request: crate::message::RequestView) -> Result<
    crate::message::RequestView,
    crate::http_proxy::ProxyErrorView,
> {
    match target_of(request) {
        Ok(target) => retargeted(request, target),
        Err(error) => Err(error),
    }
}

/// Makes of `request` what is to be forwarded: with an absolute target, and a Host header to
/// match.
pub fn normalize_request(request: ProxyRequest) -> (r: Result<ProxyRequest, ProxyError>)
    ensures
        meets(
            crate::views::outcome(r),
            normalized(request.deep_view()),
            request.deep_view(),
        ),
        uri::reads_back(request.deep_view().uri) ==> (r matches Ok(sent) ==> uri::reads_back(
            sent.deep_view().uri,
        )),
{
    let target = match &request.uri.scheme {
        Some(_) => request.uri.clone(),
        None => {
            let name = headers::host_name();
            match absolute_uri_from_origin_form(
                &request.uri,
                headers::first_value(&request.headers, &name),
            ) {
                Ok(absolute) => absolute,
                Err(error) => return Err(error),
            }
        },
    };
    retarget(request, target)
}

/// Only plain HTTP is forwarded, always to a named authority, and the Host header of what is
/// forwarded has that authority as its one value.
pub proof fn forwarded_host_is_the_authority(
    request: crate::message::RequestView,
    sent: crate::message::RequestView,
)
    requires
        normalized(request) == Ok::<_, crate::http_proxy::ProxyErrorView>(sent),
    ensures
        sent.uri.scheme == Some("http"@),
        sent.uri.authority matches Some(authority) && sent.headers.dom().contains("host"@)
            && sent.headers["host"@] == seq![vstd::utf8::encode_utf8(authority.text)],
{
}

/// The method, the body and every header but the Host header are forwarded as they came.
pub proof fn the_rest_is_forwarded_unchanged(
    request: crate::message::RequestView,
    sent: crate::message::RequestView,
)
    requires
        normalized(request) == Ok::<_, crate::http_proxy::ProxyErrorView>(sent),
    ensures
        sent.method == request.method,
        sent.body == request.body,
        sent.headers.remove("host"@) == request.headers.remove("host"@),
{
}

/// A request with an absolute target goes to that target.
pub proof fn absolute_target_is_kept(
    request: crate::message::RequestView,
    sent: crate::message::RequestView,
)
    requires
        request.uri.scheme is Some,
        normalized(request) == Ok::<_, crate::http_proxy::ProxyErrorView>(sent),
    ensures
        sent.uri == request.uri,
{
}

/// What is to be forwarded stays the same when it is normalized again: the second call of
/// [`normalize_request`], which comes to `again`, gives back the request that it got.
pub proof fn normalized_once_and_for_all(
    request: crate::message::RequestView,
    sent: crate::message::RequestView,
    again: Result<crate::message::RequestView, crate::http_proxy::ProxyErrorView>,
)
    requires
        meets(Ok(sent), normalized(request), request),
        meets(again, normalized(sent), sent),
    ensures
        again == Ok::<_, crate::http_proxy::ProxyErrorView>(sent),
{
    assert(normalized(sent)->Ok_0.headers =~= sent.headers);
}

/// Whether `url` is `http://`, then `host`, then the path and query of `target`, or a slash where
/// `target` has no path.
pub open spec fn is_origin_url(url: Seq<char>, host: Seq<u8>, target: crate::uri::UriView) -> bool {
    let start = "http://"@.len();
    let path = if target.path.len() == 0 { "/"@ } else { target.path };
    let head = start + host.len() + path.len();
    &&& url.len() >= head
    &&& url.take(start as int) == "http://"@
    &&& forall|i: int| 0 <= i < host.len() ==> url[start + i] as int == #[trigger] host[i]
    &&& url.subrange((start + host.len()) as int, head as int) == path
    &&& match target.query {
        None => url.len() == head,
        Some(query) => url.skip(head as int) == "?"@ + query,
    }
}

/// Whether `request` is to go to `to`: its own target where that has a scheme, and otherwise what
/// the URL of its first Host header and its path and query is read as.
pub open spec fn leads_to(request: crate::message::RequestView, to: crate::uri::UriView) -> bool {
    if request.uri.scheme is Some {
        to == request.uri
    } else {
        &&& request.headers.dom().contains("host"@)
        &&& forall|i: int|
            0 <= i < request.headers["host"@][0].len() ==> (
            #[trigger] request.headers["host"@][0][i] == 9 || 32 <= request.headers["host"@][0][i]
                <= 126)
        &&& exists|text: Seq<char>, url: Seq<char>|
            is_origin_url(text, request.headers["host"@][0], request.uri) && #[trigger]
            uri::parsed_url(text) == Ok::<_, Seq<char>>(url) && #[trigger] uri::parsed_uri(url)
                == Ok::<_, Seq<char>>(to)
    }
}

proof fn origin_url_is_one(url: Seq<char>, host: Seq<u8>, target: crate::uri::UriView)
    requires
        headers::is_visible(host),
    ensures
        is_origin_url(url, host, target) <==> url == origin_url(
            headers::ascii_text(host),
            target.path,
            target.query,
        ),
{
    let text = headers::ascii_text(host);
    let whole = origin_url(text, target.path, target.query);
    let start = "http://"@.len();
    let path = if target.path.len() == 0 { "/"@ } else { target.path };
    let head = start + host.len() + path.len();
    assert(whole.take(start as int) =~= "http://"@);
    assert(whole.subrange((start + host.len()) as int, head as int) =~= path);
    assert forall|i: int| 0 <= i < host.len() implies whole[start + i] as int == #[trigger] host[
        i] by {
        assert(whole[start + i] == text[i]);
        assert(headers::is_visible_byte(host[i]));
    }
    match target.query {
        None => {},
        Some(query) => {
            assert(whole.skip(head as int) =~= "?"@ + query);
        },
    }
    assert(is_origin_url(whole, host, target));
    if is_origin_url(url, host, target) {
        match target.query {
            None => {},
            Some(query) => {
                assert(url.skip(head as int).len() == whole.skip(head as int).len());
            },
        }
        assert(url.len() == whole.len());
        assert forall|i: int| 0 <= i < url.len() implies url[i] == whole[i] by {
            if i < start {
                assert(url.take(start as int)[i] == url[i]);
                assert(whole.take(start as int)[i] == whole[i]);
            } else if i < start + host.len() {
                assert(url[start + (i - start)] as int == host[i - start]);
                assert(whole[start + (i - start)] as int == host[i - start]);
            } else if i < head {
                let from = (start + host.len()) as int;
                assert(url.subrange(from, head as int)[i - from] == url[i]);
                assert(whole.subrange(from, head as int)[i - from] == whole[i]);
            } else {
                assert(url.skip(head as int)[i - head] == url[i]);
                assert(whole.skip(head as int)[i - head] == whole[i]);
            }
        }
        assert(url =~= whole);
    }
}

proof fn target_is_where_it_leads(request: crate::message::RequestView, to: crate::uri::UriView)
    ensures
        leads_to(request, to) <==> target_of(request) == Ok::<_, crate::http_proxy::ProxyErrorView>(
            to,
        ),
{
    if request.uri.scheme is None && request.headers.dom().contains("host"@) {
        let host = request.headers["host"@][0];
        let text = origin_url(headers::ascii_text(host), request.uri.path, request.uri.query);
        if headers::is_visible(host) {
            assert forall|i: int| 0 <= i < host.len() implies (#[trigger] host[i] == 9 || 32
                <= host[i] <= 126) by {
                assert(headers::is_visible_byte(host[i]));
            }
            origin_url_is_one(text, host, request.uri);
            if leads_to(request, to) {
                let (other, url) = choose|other: Seq<char>, url: Seq<char>|
                    is_origin_url(other, host, request.uri) && #[trigger] uri::parsed_url(other)
                        == Ok::<_, Seq<char>>(url) && #[trigger] uri::parsed_uri(url) == Ok::<
                        _,
                        Seq<char>,
                    >(to);
                origin_url_is_one(other, host, request.uri);
            }
            if let Ok(url) = uri::parsed_url(text) {
                if uri::parsed_uri(url) == Ok::<_, Seq<char>>(to) {
                    assert(is_origin_url(text, host, request.uri));
                }
            }
        } else if leads_to(request, to) {
            assert forall|i: int| 0 <= i < host.len() implies headers::is_visible_byte(
                #[trigger] host[i],
            ) by {
                assert(host[i] == 9 || 32 <= host[i] <= 126);
            }
        }
    }
}

/// Whether `bytes` has no control character but the tab.
pub open spec fn may_stand_in_a_header(bytes: Seq<u8>) -> bool {
    forall|i: int|
        0 <= i < bytes.len() ==> (#[trigger] bytes[i] == 9 || (bytes[i] >= 32 && bytes[i] != 127))
}

proof fn what_may_stand_is_a_value(bytes: Seq<u8>)
    ensures
        may_stand_in_a_header(bytes) <==> headers::is_value(bytes),
{
    if may_stand_in_a_header(bytes) {
        assert forall|i: int| 0 <= i < bytes.len() implies headers::is_value_byte(
            #[trigger] bytes[i],
        ) by {
            assert(bytes[i] == 9 || (bytes[i] >= 32 && bytes[i] != 127));
        }
    }
    if headers::is_value(bytes) {
        assert forall|i: int| 0 <= i < bytes.len() implies (#[trigger] bytes[i] == 9 || (bytes[i]
            >= 32 && bytes[i] != 127)) by {
            assert(headers::is_value_byte(bytes[i]));
        }
    }
}

/// Whether `sent` is `request` on its way to `to`: with its method, its body and all its headers, but
/// for the Host header, whose one value is `authority`.
pub open spec fn is_on_its_way(
    sent: crate::message::RequestView,
    request: crate::message::RequestView,
    to: crate::uri::UriView,
    authority: Seq<char>,
) -> bool {
    &&& sent.uri == to
    &&& sent.method == request.method
    &&& sent.body == request.body
    &&& sent.headers.dom() == request.headers.dom().insert("host"@)
    &&& sent.headers["host"@] == seq![vstd::utf8::encode_utf8(authority)]
    &&& forall|name: Seq<char>|
        name != "host"@ && request.headers.dom().contains(name) ==> #[trigger] sent.headers[name]
            == request.headers[name]
}

/// A request with a plain HTTP target that has an authority is accepted, whatever its method, body
/// and other headers are, and sent on its way. Only a new Host header among very many names may be
/// refused.
pub proof fn plain_http_targets_are_accepted(
    request: crate::message::RequestView,
    to: crate::uri::UriView,
    authority: crate::uri::AuthorityView,
    outcome: Result<crate::message::RequestView, crate::http_proxy::ProxyErrorView>,
)
    requires
        meets(outcome, retargeted(request, to), request),
        to.scheme == Some("http"@),
        to.authority == Some(authority),
        may_stand_in_a_header(vstd::utf8::encode_utf8(authority.text)),
    ensures
        request.headers.dom().len() < 6554 || (request.headers.dom().contains("host"@)
            && request.headers["host"@] == seq![vstd::utf8::encode_utf8(authority.text)])
            ==> outcome is Ok,
        outcome matches Ok(sent) ==> is_on_its_way(sent, request, to, authority.text),
        outcome matches Err(error) ==> error
            == crate::http_proxy::ProxyErrorView::TooManyHeaders,
{
    what_may_stand_is_a_value(vstd::utf8::encode_utf8(authority.text));
    let value = seq![vstd::utf8::encode_utf8(authority.text)];
    if request.headers.dom().contains("host"@) && request.headers["host"@] == value {
        assert(request.headers.insert("host"@, value) =~= request.headers);
    }
    assert(request.headers.insert("host"@, value).dom() =~= request.headers.dom().insert("host"@));
}

/// A target is refused for its scheme if and only if that is not `http`, for a missing authority if
/// and only if it then has none, and for an invalid one if and only if it then has one that cannot
/// stand in a header.
pub proof fn targets_are_refused_for_what_they_lack(
    request: crate::message::RequestView,
    to: crate::uri::UriView,
    outcome: Result<crate::message::RequestView, crate::http_proxy::ProxyErrorView>,
)
    requires
        meets(outcome, retargeted(request, to), request),
    ensures
        outcome == Err::<crate::message::RequestView, _>(
            crate::http_proxy::ProxyErrorView::UnsupportedScheme,
        ) <==> to.scheme != Some("http"@),
        outcome == Err::<crate::message::RequestView, _>(
            crate::http_proxy::ProxyErrorView::MissingAuthority,
        ) <==> to.scheme == Some("http"@) && to.authority is None,
        outcome == Err::<crate::message::RequestView, _>(
            crate::http_proxy::ProxyErrorView::InvalidAuthority,
        ) <==> to.scheme == Some("http"@) && (to.authority matches Some(authority)
            && !may_stand_in_a_header(vstd::utf8::encode_utf8(authority.text))),
{
    if let Some(authority) = to.authority {
        what_may_stand_is_a_value(vstd::utf8::encode_utf8(authority.text));
    }
}

/// A request that leads to a plain HTTP target with an authority is accepted and sent on its way
/// there, whatever its method, body and other headers are. Only a new Host header among very many
/// names may be refused.
pub proof fn plain_http_is_accepted(
    request: crate::message::RequestView,
    to: crate::uri::UriView,
    authority: crate::uri::AuthorityView,
    outcome: Result<crate::message::RequestView, crate::http_proxy::ProxyErrorView>,
)
    requires
        meets(outcome, normalized(request), request),
        leads_to(request, to),
        to.scheme == Some("http"@),
        to.authority == Some(authority),
        may_stand_in_a_header(vstd::utf8::encode_utf8(authority.text)),
    ensures
        request.headers.dom().len() < 6554 || (request.headers.dom().contains("host"@)
            && request.headers["host"@] == seq![vstd::utf8::encode_utf8(authority.text)])
            ==> outcome is Ok,
        outcome matches Ok(sent) ==> is_on_its_way(sent, request, to, authority.text),
        outcome matches Err(error) ==> error
            == crate::http_proxy::ProxyErrorView::TooManyHeaders,
{
    target_is_where_it_leads(request, to);
    plain_http_targets_are_accepted(request, to, authority, outcome);
}

/// A request is refused for the target that it leads to if and only if that is not plain HTTP, has
/// no authority, or one that cannot stand in a header.
pub proof fn requests_are_refused_for_their_target(
    request: crate::message::RequestView,
    to: crate::uri::UriView,
    outcome: Result<crate::message::RequestView, crate::http_proxy::ProxyErrorView>,
)
    requires
        meets(outcome, normalized(request), request),
        leads_to(request, to),
    ensures
        outcome == Err::<crate::message::RequestView, _>(
            crate::http_proxy::ProxyErrorView::UnsupportedScheme,
        ) <==> to.scheme != Some("http"@),
        outcome == Err::<crate::message::RequestView, _>(
            crate::http_proxy::ProxyErrorView::MissingAuthority,
        ) <==> to.scheme == Some("http"@) && to.authority is None,
        outcome == Err::<crate::message::RequestView, _>(
            crate::http_proxy::ProxyErrorView::InvalidAuthority,
        ) <==> to.scheme == Some("http"@) && (to.authority matches Some(authority)
            && !may_stand_in_a_header(vstd::utf8::encode_utf8(authority.text))),
{
    target_is_where_it_leads(request, to);
    targets_are_refused_for_what_they_lack(request, to, outcome);
}

/// Only a target without a scheme needs a Host header. It is refused if and only if there is none,
/// if it is no visible ASCII text, if its URL cannot be read, or if that URL is no target.
pub proof fn hosts_are_refused_for_what_they_lack(
    request: crate::message::RequestView,
    outcome: Result<crate::message::RequestView, crate::http_proxy::ProxyErrorView>,
    url: Seq<char>,
    message: Seq<char>,
)
    requires
        meets(outcome, normalized(request), request),
        is_origin_url(url, request.headers["host"@][0], request.uri),
    ensures
        request.uri.scheme is Some ==> (outcome matches Err(error) ==> error !is MissingHost && error
            !is UnreadableHost && error !is InvalidUrl && error !is InvalidUri),
        request.uri.scheme is None ==> {
            let held = request.headers.dom().contains("host"@);
            let visible = forall|i: int|
                0 <= i < request.headers["host"@][0].len() ==> (
                #[trigger] request.headers["host"@][0][i] == 9 || 32 <= request.headers["host"@][0][
                i] <= 126);
            &&& outcome == Err::<crate::message::RequestView, _>(
                crate::http_proxy::ProxyErrorView::MissingHost,
            ) <==> !held
            &&& outcome == Err::<crate::message::RequestView, _>(
                crate::http_proxy::ProxyErrorView::UnreadableHost,
            ) <==> held && !visible
            &&& outcome == Err::<crate::message::RequestView, _>(
                crate::http_proxy::ProxyErrorView::InvalidUrl { message },
            ) <==> held && visible && uri::parsed_url(url) == Err::<Seq<char>, _>(message)
            &&& outcome == Err::<crate::message::RequestView, _>(
                crate::http_proxy::ProxyErrorView::InvalidUri { message },
            ) <==> held && visible && (uri::parsed_url(url) matches Ok(text) && uri::parsed_uri(text)
                == Err::<crate::uri::UriView, _>(message))
        },
        outcome matches Err(error) ==> error !is Plugin && error !is Transport,
{
    let host = request.headers["host"@][0];
    if headers::is_visible(host) {
        assert forall|i: int| 0 <= i < host.len() implies (#[trigger] host[i] == 9 || 32 <= host[i]
            <= 126) by {
            assert(headers::is_visible_byte(host[i]));
        }
        origin_url_is_one(url, host, request.uri);
    } else {
        let i = choose|i: int|
            0 <= i < host.len() && !headers::is_visible_byte(#[trigger] host[i]);
        assert(!(host[i] == 9 || 32 <= host[i] <= 126));
    }
}

/// The URL of a Host header, a path and a query has nothing but these, in this order: `http://`, the
/// host, the path or else a slash, and the query behind its question mark where there is one.
pub proof fn origin_urls_have_all_their_parts(
    host: Seq<char>,
    path: Seq<char>,
    query: Option<Seq<char>>,
)
    ensures
        ({
            let url = origin_url(host, path, query);
            let start = "http://"@.len() as int;
            let root = start + host.len();
            let head = root + (if path.len() == 0 {
                "/"@.len()
            } else {
                path.len()
            });
            &&& url.take(start) == "http://"@
            &&& url.subrange(start, root) == host
            &&& url.subrange(root, head) == (if path.len() == 0 {
                "/"@
            } else {
                path
            })
            &&& query is None ==> url.len() == head
            &&& query matches Some(asked) ==> url.skip(head) == "?"@ + asked
        }),
{
    let url = origin_url(host, path, query);
    let start = "http://"@.len() as int;
    let root = start + host.len();
    let middle = if path.len() == 0 { "/"@ } else { path };
    let head = root + middle.len();
    assert(url.take(start) =~= "http://"@);
    assert(url.subrange(start, root) =~= host);
    assert(url.subrange(root, head) =~= middle);
    if let Some(asked) = query {
        assert(url.skip(head) =~= "?"@ + asked);
    }
}

/// A target without a scheme is read from the URL of its Host header. Each thing that can be wrong
/// with that, and nothing else, is what it is refused for.
pub proof fn origin_targets_are_read_from_their_url(
    target: crate::uri::UriView,
    host: Seq<u8>,
    url: Seq<char>,
)
    requires
        is_origin_url(url, host, target),
    ensures
        absolute_uri(target, None) == Err::<crate::uri::UriView, _>(
            crate::http_proxy::ProxyErrorView::MissingHost,
        ),
        ({
            let visible = forall|i: int|
                0 <= i < host.len() ==> (#[trigger] host[i] == 9 || 32 <= host[i] <= 126);
            match absolute_uri(target, Some(host)) {
                Ok(read) => visible && (uri::parsed_url(url) matches Ok(text) && uri::parsed_uri(
                    text,
                ) == Ok::<_, Seq<char>>(read)),
                Err(crate::http_proxy::ProxyErrorView::UnreadableHost) => !visible,
                Err(crate::http_proxy::ProxyErrorView::InvalidUrl { message }) => visible
                    && uri::parsed_url(url) == Err::<Seq<char>, _>(message),
                Err(crate::http_proxy::ProxyErrorView::InvalidUri { message }) => visible && (
                uri::parsed_url(url) matches Ok(text) && uri::parsed_uri(text) == Err::<
                    crate::uri::UriView,
                    _,
                >(message)),
                _ => false,
            }
        }),
{
    if headers::is_visible(host) {
        assert forall|i: int| 0 <= i < host.len() implies (#[trigger] host[i] == 9 || 32 <= host[i]
            <= 126) by {
            assert(headers::is_visible_byte(host[i]));
        }
        origin_url_is_one(url, host, target);
    } else {
        let i = choose|i: int|
            0 <= i < host.len() && !headers::is_visible_byte(#[trigger] host[i]);
        assert(!(host[i] == 9 || 32 <= host[i] <= 126));
    }
}

} // verus!
