//! What the proxy does with a request.

use traffwd::http_proxy::connect::{
    connect_authority, handle_connect_request, ConnectAction, ConnectError, ConnectEvent,
};
use traffwd::http_proxy::forward::{forward, ForwardAction, ForwardEvent};
use traffwd::http_proxy::target::{
    absolute_uri_from_origin_form, normalize_request, origin_url_text, retarget,
};
use traffwd::http_proxy::{
    failure_response, handle_proxy_request, is_sse_response, text_response, ProxyError, Route,
};
use traffwd::message::{ProxyRequest, ProxyResponse};
use traffwd::plugins::{
    apply_request_plugins, apply_response_plugins, PluginError, TrafficPlugin, Turn,
};
use traffwd::uri::{Authority, Uri};

struct ResponsePlugin;

impl TrafficPlugin for ResponsePlugin {
    fn name(&self) -> &'static str {
        "response_plugin"
    }

    fn requires_buffered_response(&self) -> bool {
        true
    }
}

struct IdlePlugin;

impl TrafficPlugin for IdlePlugin {
    fn name(&self) -> &'static str {
        "idle_plugin"
    }
}

type Stack = Vec<Box<dyn TrafficPlugin>>;

fn uri(text: &str) -> Uri {
    let uri: http::Uri = text.parse().expect("uri should parse");
    Uri {
        text: uri.to_string(),
        scheme: uri.scheme_str().map(str::to_owned),
        authority: uri.authority().map(|authority| Authority {
            text: authority.as_str().to_owned(),
            host: authority.host().to_owned(),
            port: authority.port_u16(),
        }),
        path: uri.path().to_owned(),
        query: uri.query().map(str::to_owned),
    }
}

fn header_map(headers: &[(&str, &str)]) -> http::HeaderMap {
    let mut map = http::HeaderMap::new();
    for (name, value) in headers {
        let name: http::HeaderName = name.parse().expect("header name should parse");
        map.append(name, value.parse().expect("header value should parse"));
    }
    map
}

fn request(target: &str, headers: &[(&str, &str)]) -> ProxyRequest {
    ProxyRequest {
        method: "GET".to_owned(),
        uri: uri(target),
        headers: header_map(headers),
        body: b"body".to_vec(),
    }
}

fn response(status: u16) -> ProxyResponse {
    ProxyResponse { status, headers: http::HeaderMap::new(), body: Vec::new() }
}

fn failure(message: &str) -> PluginError {
    PluginError::Failed { plugin: "idle_plugin", message: message.to_owned() }
}

/// Forwards a request for events, and checks that the response is passed on as it comes in.
fn assert_event_response_is_streamed(stack: Stack, content_type: &str) {
    let received = ForwardEvent::Received { request: request("http://127.0.0.1:50001/events", &[]) };
    let mut action = forward(&stack, received);
    while let ForwardAction::PassRequest { plugin, request } = action {
        action = forward(&stack, ForwardEvent::RequestPassed { plugin, onward: Ok(request) });
    }
    match action {
        ForwardAction::Send { request } => {
            assert_eq!(request.uri.text, "http://127.0.0.1:50001/events");
            assert_eq!(request.headers["host"], "127.0.0.1:50001");
        }
        _ => panic!("the request should be sent"),
    }
    let headers = header_map(&[("content-type", content_type), ("transfer-encoding", "chunked")]);
    let action = forward(&stack, ForwardEvent::Responded { headers: &headers });
    assert!(matches!(action, ForwardAction::Stream));
}

#[test]
fn forwards_response_body_without_waiting_for_complete_upstream_body() {
    assert_event_response_is_streamed(Vec::new(), "text/event-stream");
}

#[test]
fn streams_sse_response_even_when_response_plugins_are_configured() {
    assert_event_response_is_streamed(vec![Box::new(ResponsePlugin)], "text/event-stream");
}

#[test]
fn recognizes_sse_content_type_case_insensitively_with_parameters() {
    assert_event_response_is_streamed(
        vec![Box::new(ResponsePlugin)],
        "Text/Event-Stream; charset=utf-8",
    );
}

#[test]
fn connect_tunnels_bytes_between_client_and_target() {
    let target_addr = "127.0.0.1:50002";
    assert_eq!(handle_proxy_request("CONNECT"), Route::Tunnel);
    match handle_connect_request(ConnectEvent::Received { target: uri(target_addr) }) {
        ConnectAction::Connect { authority } => assert_eq!(authority, target_addr),
        _ => panic!("the target should be connected to"),
    }
    match handle_connect_request(ConnectEvent::Connected) {
        ConnectAction::Tunnel { response } => {
            assert_eq!(response.status, 200);
            assert!(response.headers.is_empty());
            assert!(response.body.is_empty());
        }
        _ => panic!("the tunnel should be opened"),
    }
}

#[test]
fn other_methods_are_forwarded() {
    for method in ["GET", "POST", "connect", "CONNECTED", ""] {
        assert_eq!(handle_proxy_request(method), Route::Forward);
    }
}

#[test]
fn other_responses_are_collected_for_response_plugins() {
    let stack: Stack = vec![Box::new(ResponsePlugin)];
    for content_type in ["text/plain", "text/event-streams", "text/event-stream+json", ""] {
        let headers = header_map(&[("content-type", content_type)]);
        let action = forward(&stack, ForwardEvent::Responded { headers: &headers });
        assert!(matches!(action, ForwardAction::Collect));
    }
    let headers = http::HeaderMap::new();
    let action = forward(&stack, ForwardEvent::Responded { headers: &headers });
    assert!(matches!(action, ForwardAction::Collect));
}

#[test]
fn idle_plugins_leave_responses_streamed() {
    let stack: Stack = vec![Box::new(IdlePlugin), Box::new(IdlePlugin)];
    let headers = header_map(&[("content-type", "text/plain")]);
    let action = forward(&stack, ForwardEvent::Responded { headers: &headers });
    assert!(matches!(action, ForwardAction::Stream));
}

#[test]
fn event_streams_are_told_by_the_first_media_type() {
    assert!(is_sse_response(&header_map(&[("content-type", " text/event-stream\t;x")])));
    assert!(is_sse_response(&header_map(&[
        ("content-type", "text/event-stream"),
        ("content-type", "text/plain"),
    ])));
    assert!(!is_sse_response(&header_map(&[
        ("content-type", "text/plain"),
        ("content-type", "text/event-stream"),
    ])));
    assert!(!is_sse_response(&header_map(&[("content-type", "text/plain; text/event-stream")])));
    let mut opaque = http::HeaderMap::new();
    let value = http::HeaderValue::from_bytes(b"text/event-stream; \xff").expect("opaque value");
    opaque.append("content-type", value);
    assert!(!is_sse_response(&opaque));
}

#[test]
fn plugins_run_in_order_and_back() {
    let stack: Stack = vec![Box::new(IdlePlugin), Box::new(ResponsePlugin), Box::new(IdlePlugin)];
    let mut asked = Vec::new();
    let mut action =
        forward(&stack, ForwardEvent::Received { request: request("http://a.test/", &[]) });
    while let ForwardAction::PassRequest { plugin, mut request } = action {
        asked.push(plugin);
        request.body.push(b'0' + plugin as u8);
        action = forward(&stack, ForwardEvent::RequestPassed { plugin, onward: Ok(request) });
    }
    match action {
        ForwardAction::Send { request } => assert_eq!(request.body, b"body012"),
        _ => panic!("the request should be sent"),
    }
    let mut action = forward(&stack, ForwardEvent::Collected { response: response(200) });
    while let ForwardAction::PassResponse { plugin, mut response } = action {
        asked.push(plugin);
        response.body.push(b'0' + plugin as u8);
        action = forward(&stack, ForwardEvent::ResponsePassed { plugin, back: Ok(response) });
    }
    match action {
        ForwardAction::Reply { response } => assert_eq!(response.body, b"210"),
        _ => panic!("the client should be answered"),
    }
    assert_eq!(asked, [0, 1, 2, 2, 1, 0]);
}

#[test]
fn first_failing_plugin_ends_the_forwarding() {
    let stack: Stack = vec![Box::new(IdlePlugin), Box::new(IdlePlugin)];
    let failed = ForwardEvent::RequestPassed { plugin: 0, onward: Err(failure("no")) };
    match forward(&stack, failed) {
        ForwardAction::Fail { error } => {
            assert_eq!(error.to_text(), "plugin idle_plugin failed: no")
        }
        _ => panic!("the forwarding should fail"),
    }
    let failed = ForwardEvent::ResponsePassed { plugin: 1, back: Err(failure("never")) };
    match forward(&stack, failed) {
        ForwardAction::Fail { error } => {
            assert_eq!(error.to_text(), "plugin idle_plugin failed: never")
        }
        _ => panic!("the forwarding should fail"),
    }
}

#[test]
fn broken_transport_ends_the_forwarding() {
    let stack: Stack = Vec::new();
    match forward(&stack, ForwardEvent::Broken { message: "connection reset".to_owned() }) {
        ForwardAction::Fail { error } => assert_eq!(error.to_text(), "connection reset"),
        _ => panic!("the forwarding should fail"),
    }
}

#[test]
fn faulty_targets_end_the_forwarding() {
    let stack: Stack = vec![Box::new(IdlePlugin)];
    match forward(&stack, ForwardEvent::Received { request: request("https://a.test/", &[]) }) {
        ForwardAction::Fail { error } => {
            assert_eq!(error.to_text(), "only http upstream requests are supported for now")
        }
        _ => panic!("the forwarding should fail"),
    }
}

#[test]
fn turns_follow_the_stack() {
    assert!(matches!(
        apply_request_plugins(2, 1, Ok(7u8)),
        Turn::Call { plugin: 1, message: 7 }
    ));
    assert!(matches!(
        apply_request_plugins(2, 2, Ok(7u8)),
        Turn::Finished { outcome: Ok(7) }
    ));
    assert!(matches!(
        apply_response_plugins(3, 1, Ok(7u8)),
        Turn::Call { plugin: 1, message: 7 }
    ));
    assert!(matches!(
        apply_response_plugins(3, 0, Ok(7u8)),
        Turn::Call { plugin: 2, message: 7 }
    ));
    assert!(matches!(
        apply_response_plugins::<u8>(3, 1, Err(failure("no"))),
        Turn::Finished { outcome: Err(_) }
    ));
    assert!(matches!(
        apply_request_plugins(0, 0, Ok(7u8)),
        Turn::Finished { outcome: Ok(7) }
    ));
}

#[test]
fn absolute_targets_are_kept_and_name_the_host() {
    let came = request(
        "http://example.test:8081/path?q=1",
        &[("host", "other.test"), ("host", "third.test"), ("accept", "*/*")],
    );
    let sent = normalize_request(came).expect("the request should be accepted");
    assert_eq!(sent.uri.text, "http://example.test:8081/path?q=1");
    let hosts: Vec<&[u8]> =
        sent.headers.get_all("host").iter().map(|value| value.as_bytes()).collect();
    assert_eq!(hosts, [b"example.test:8081"]);
    assert_eq!(sent.headers["accept"], "*/*");
    assert_eq!(sent.method, "GET");
    assert_eq!(sent.body, b"body");
    let again = normalize_request(sent).expect("the request should be accepted again");
    assert_eq!(again.uri.text, "http://example.test:8081/path?q=1");
    assert_eq!(again.headers["host"], "example.test:8081");
}

#[test]
fn origin_targets_take_the_host_header() {
    let came = request("/a b".replace(' ', "%20").as_str(), &[("host", "EXAMPLE.test:80")]);
    let sent = normalize_request(came).expect("the request should be accepted");
    assert_eq!(sent.uri.text, "http://example.test/a%20b");
    assert_eq!(sent.headers["host"], "example.test");
    let sent = normalize_request(request("/x?y", &[("host", "example.test:8080")]))
        .expect("the request should be accepted");
    assert_eq!(sent.uri.text, "http://example.test:8080/x?y");
    assert_eq!(sent.headers["host"], "example.test:8080");
}

#[test]
fn origin_urls_default_to_the_root() {
    assert_eq!(origin_url_text("a.test", "", &None), "http://a.test/");
    assert_eq!(origin_url_text("a.test", "/p", &Some("q".to_owned())), "http://a.test/p?q");
    assert_eq!(origin_url_text("a.test", "/p", &Some(String::new())), "http://a.test/p?");
    assert_eq!(origin_url_text("a.test", "*", &None), "http://a.test*");
    let host = http::HeaderValue::from_static("a.test");
    let target = absolute_uri_from_origin_form(&uri("b.test:1"), Some(&host));
    assert_eq!(target.expect("the target should be accepted").text, "http://a.test/");
}

#[test]
fn faulty_targets_are_refused() {
    let refused = |request: ProxyRequest| normalize_request(request).err().expect("refusal").to_text();
    assert_eq!(refused(request("/", &[])), "origin-form request is missing Host header");
    assert_eq!(refused(request("/", &[("host", "")])), "empty host");
    assert_eq!(
        refused(request("ftp://example.test/", &[])),
        "only http upstream requests are supported for now"
    );
    let mut opaque = request("/", &[]);
    opaque.headers.append("host", http::HeaderValue::from_bytes(b"\xff").expect("opaque value"));
    assert_eq!(refused(opaque), "failed to convert header to a str");
}

#[test]
fn targets_without_authority_are_refused() {
    let target = Uri {
        text: "http:/x".to_owned(),
        scheme: Some("http".to_owned()),
        authority: None,
        path: "/x".to_owned(),
        query: None,
    };
    let error = retarget(request("/", &[]), target.clone()).err().expect("refusal");
    assert!(matches!(error, ProxyError::MissingAuthority));
    assert_eq!(error.to_text(), "request target is missing authority");
    let authority = Authority { text: "a\nb".to_owned(), host: "a\nb".to_owned(), port: None };
    let error = retarget(request("/", &[]), Uri { authority: Some(authority), ..target }).err();
    assert_eq!(error.expect("refusal").to_text(), "failed to parse header value");
}

#[test]
fn host_header_needs_room() {
    let mut came = request("http://example.test/", &[]);
    let mut refused = false;
    for number in 0..40000 {
        let name: http::HeaderName = format!("x-{number}").parse().expect("name should parse");
        if came.headers.try_append(name, http::HeaderValue::from_static("v")).is_err() {
            refused = true;
            break;
        }
    }
    assert!(refused);
    let error = normalize_request(came).err().expect("there is no room for the Host header");
    assert!(matches!(error, ProxyError::TooManyHeaders));
    assert_eq!(error.to_text(), "max size reached");
}

#[test]
fn host_header_that_says_so_needs_no_room() {
    let mut came = request("http://example.test/", &[("host", "example.test")]);
    let mut refused = false;
    for number in 0..40000 {
        let name: http::HeaderName = format!("x-{number}").parse().expect("name should parse");
        if came.headers.try_append(name, http::HeaderValue::from_static("v")).is_err() {
            refused = true;
            break;
        }
    }
    assert!(refused);
    let headers = came.headers.clone();
    let sent = normalize_request(came).expect("the Host header is there already");
    assert_eq!(sent.headers, headers);
}

#[test]
fn tunnels_need_a_host_and_a_port() {
    assert_eq!(connect_authority(&uri("example.test:443")), Ok("example.test:443".to_owned()));
    assert_eq!(connect_authority(&uri("[::1]:443")), Ok("[::1]:443".to_owned()));
    assert_eq!(connect_authority(&uri("/path")), Err(ConnectError::MissingAuthority));
    assert_eq!(connect_authority(&uri("example.test")), Err(ConnectError::MissingPort));
    let nobody = Authority { text: ":443".to_owned(), host: String::new(), port: Some(443) };
    let target = Uri {
        text: ":443".to_owned(),
        scheme: None,
        authority: Some(nobody),
        path: String::new(),
        query: None,
    };
    assert_eq!(connect_authority(&target), Err(ConnectError::EmptyHost));
}

#[test]
fn refused_tunnels_are_answered_with_the_reason() {
    let reply = |event: ConnectEvent| match handle_connect_request(event) {
        ConnectAction::Reply { response } => response,
        _ => panic!("the client should be answered"),
    };
    let response = reply(ConnectEvent::Received { target: uri("example.test") });
    assert_eq!(response.status, 400);
    assert_eq!(response.body, b"invalid CONNECT target: CONNECT target must include a port\n");
    let response = reply(ConnectEvent::Received { target: uri("/") });
    assert_eq!(response.body, b"invalid CONNECT target: CONNECT target is missing authority\n");
    let response = reply(ConnectEvent::Refused { message: "connection refused".to_owned() });
    assert_eq!(response.status, 502);
    assert_eq!(response.body, b"failed to connect CONNECT target: connection refused\n");
    assert_eq!(response.headers["content-type"], "text/plain; charset=utf-8");
    assert_eq!(ConnectError::EmptyHost.to_text(), "CONNECT target host is empty");
}

#[test]
fn texts_are_answered_in_plain() {
    let response = text_response(418, "caf\u{e9}\n");
    assert_eq!(response.status, 418);
    assert_eq!(response.headers.len(), 1);
    assert_eq!(response.headers["content-type"], "text/plain; charset=utf-8");
    assert_eq!(response.body, "caf\u{e9}\n".as_bytes());
}

#[test]
fn failures_are_answered_with_bad_gateway() {
    let response = failure_response(&ProxyError::MissingHost);
    assert_eq!(response.status, 502);
    assert_eq!(
        response.body,
        b"proxy request failed: origin-form request is missing Host header\n"
    );
    let response = failure_response(&ProxyError::Plugin { error: failure("no") });
    assert_eq!(response.body, b"proxy request failed: plugin idle_plugin failed: no\n");
    assert_eq!(
        ProxyError::InvalidUri { message: "invalid format".to_owned() }.to_text(),
        "invalid format"
    );
    assert_eq!(
        ProxyError::InvalidUrl { message: "empty host".to_owned() }.to_text(),
        "empty host"
    );
}
