//! Rewriting by a command, from the message that comes in to the message that goes out.

use serde_json::Value;
use traffwd::config::{CommandConfig, CommandRewriteConfig, PluginConfig};
use traffwd::message::{ProxyRequest, ProxyResponse};
use traffwd::plugins::command::{
    exit_failure, CommandAction, CommandEvent, CommandInput, CommandOutput, CommandPhase,
    CommandRequestPatch, CommandResponsePatch, CommandRunner,
};
use traffwd::plugins::command_headers::{headers_from_wire, headers_to_wire};
use traffwd::plugins::command_rewrite::{
    change_request, change_response, finish_request, finish_response, CommandRewritePlugin,
    RequestChange, RequestStep, ResponseChange, ResponseStep,
};
use traffwd::plugins::{
    apply_request_plugins, apply_response_plugins, build_plugins, PluginError, PluginStack,
    TrafficPlugin, Turn,
};
use traffwd::uri::{Authority, Uri};
use traffwd::wire::WireHeaders;

const SCRIPT: &str = "rewrite.sh";

fn uri(text: &str) -> Uri {
    let uri: http::Uri = text.parse().expect("uri should parse");
    Uri {
        text: uri.to_string(),
        scheme: uri.scheme_str().map(str::to_owned),
        authority: uri.authority().map(|authority| Authority {
            text: authority.as_str().to_owned(),
            host: authority.host().to_owned(),
            port: authority.port_u16(),
        }),
        path: uri.path().to_owned(),
        query: uri.query().map(str::to_owned),
    }
}

fn header_map(headers: &[(&str, &str)]) -> http::HeaderMap {
    let mut map = http::HeaderMap::new();
    for (name, value) in headers {
        let name: http::HeaderName = name.parse().expect("header name should parse");
        map.append(name, value.parse().expect("header value should parse"));
    }
    map
}

fn request(method: &str, headers: &[(&str, &str)], body: &[u8]) -> ProxyRequest {
    ProxyRequest {
        method: method.to_owned(),
        uri: uri("http://example.test/"),
        headers: header_map(headers),
        body: body.to_vec(),
    }
}

fn response(status: u16, headers: &[(&str, &str)], body: &[u8]) -> ProxyResponse {
    ProxyResponse { status, headers: header_map(headers), body: body.to_vec() }
}

fn wire(headers: &[(&str, &[&str])]) -> WireHeaders {
    let mut wire = WireHeaders::new();
    for (name, values) in headers {
        wire.insert(
            (*name).to_owned(),
            values.iter().map(|value| (*value).to_owned()).collect(),
        );
    }
    wire
}

fn wire_from_json(value: &Value) -> WireHeaders {
    let mut wire = WireHeaders::new();
    for (name, values) in value.as_object().expect("headers should be an object") {
        let values = values.as_array().expect("header values should be a list").iter();
        wire.insert(name.clone(), values.map(|value| text(value)).collect());
    }
    wire
}

fn text(value: &Value) -> String {
    value.as_str().expect("value should be a string").to_owned()
}

fn output_from_json(stdout: &[u8]) -> CommandOutput {
    let value: Value = serde_json::from_slice(stdout).expect("stdout should be JSON");
    CommandOutput {
        version: value.get("version").and_then(Value::as_u64).map(|version| version as u8),
        request: value.get("request").map(|patch| CommandRequestPatch {
            method: patch.get("method").map(text),
            uri: patch.get("uri").map(text),
            headers: patch.get("headers").map(wire_from_json),
            body_base64: patch.get("body_base64").map(text),
        }),
        response: value.get("response").map(|patch| CommandResponsePatch {
            status: patch.get("status").and_then(Value::as_u64).map(|status| status as u16),
            headers: patch.get("headers").map(wire_from_json),
            body_base64: patch.get("body_base64").map(text),
        }),
    }
}

/// Takes every action of a run in which the command answers `stdout`.
fn run(
    runner: &CommandRunner,
    input: CommandInput,
    stdout: &[u8],
) -> Result<CommandOutput, PluginError> {
    let mut event = CommandEvent::Started { input };
    loop {
        event = match runner.execute(event) {
            CommandAction::Encode { input } => {
                assert_eq!(input.version, 1);
                CommandEvent::Encoded { payload: b"payload".to_vec() }
            }
            CommandAction::Spawn { program, args, timeout_ms, payload } => {
                assert_eq!(program, SCRIPT);
                assert!(args.is_empty());
                assert_eq!(timeout_ms, 5000);
                CommandEvent::Spawned { stdin: true, payload }
            }
            CommandAction::Write { payload } => {
                assert_eq!(payload, b"payload");
                CommandEvent::Written
            }
            CommandAction::Close => CommandEvent::Closed,
            CommandAction::Wait => CommandEvent::Exited {
                success: true,
                status: "exit status: 0".to_owned(),
                stdout: stdout.to_vec(),
                stderr: Vec::new(),
            },
            CommandAction::Decode { stdout } => {
                CommandEvent::Decoded { output: output_from_json(&stdout) }
            }
            CommandAction::Finish { outcome } => return outcome,
        };
    }
}

fn command() -> CommandConfig {
    CommandConfig { program: SCRIPT.to_owned(), args: Vec::new(), timeout_ms: 5000 }
}

fn stack(request: Option<CommandConfig>, response: Option<CommandConfig>) -> PluginStack {
    let configs = [PluginConfig::CommandRewrite(CommandRewriteConfig { request, response })];
    build_plugins(&configs).expect("plugins should build")
}

fn plugin(
    request: Option<CommandConfig>,
    response: Option<CommandConfig>,
) -> Box<CommandRewritePlugin> {
    stack(request, response).remove(0)
}

/// Takes every turn of `request` through `plugins`, whose commands answer `stdout`, each its own.
fn pass_request(
    plugins: &PluginStack,
    request: ProxyRequest,
    stdout: &[&str],
) -> Result<ProxyRequest, PluginError> {
    let mut done = 0;
    let mut latest = Ok(request);
    loop {
        match apply_request_plugins(plugins.len(), done, latest) {
            Turn::Call { plugin, message } => {
                latest = match plugins[plugin].on_request(message) {
                    RequestStep::Done { outcome } => outcome,
                    RequestStep::Run { runner, input, request } => {
                        finish_request(request, run(runner, input, stdout[plugin].as_bytes()))
                    }
                };
                done += 1;
            }
            Turn::Finished { outcome } => return outcome,
        }
    }
}

/// Takes every turn of `response` through `plugins`, whose commands answer `stdout`, each its own.
fn pass_response(
    plugins: &PluginStack,
    response: ProxyResponse,
    stdout: &[&str],
) -> Result<ProxyResponse, PluginError> {
    let mut done = 0;
    let mut latest = Ok(response);
    loop {
        match apply_response_plugins(plugins.len(), done, latest) {
            Turn::Call { plugin, message } => {
                latest = match plugins[plugin].on_response(message) {
                    ResponseStep::Done { outcome } => outcome,
                    ResponseStep::Run { runner, input, response } => {
                        finish_response(response, run(runner, input, stdout[plugin].as_bytes()))
                    }
                };
                done += 1;
            }
            Turn::Finished { outcome } => return outcome,
        }
    }
}

fn rewrite_request(request: ProxyRequest, stdout: &str) -> Result<ProxyRequest, PluginError> {
    pass_request(&stack(Some(command()), None), request, &[stdout])
}

fn rewrite_response(response: ProxyResponse, stdout: &str) -> Result<ProxyResponse, PluginError> {
    pass_response(&stack(None, Some(command())), response, &[stdout])
}

fn runner() -> CommandRunner {
    CommandRunner::try_new(command()).expect("command should be accepted")
}

fn finished(action: CommandAction) -> String {
    match action {
        CommandAction::Finish { outcome } => {
            outcome.err().expect("the run should have failed").to_text()
        }
        _ => panic!("the run should be over"),
    }
}

fn empty_output(version: Option<u8>) -> CommandOutput {
    CommandOutput { version, request: None, response: None }
}

#[test]
fn command_rewrite_can_leave_request_unchanged() {
    let request = rewrite_request(
        request("GET", &[("x-original", "kept")], b""),
        "{\"version\":1}\n",
    )
    .expect("request command should apply");

    assert_eq!(request.method, "GET");
    assert_eq!(request.headers["x-original"], "kept");
}

#[test]
fn command_rewrite_can_patch_request_headers_and_body() {
    let request = rewrite_request(
        request("GET", &[("x-original", "removed")], b"original"),
        r#"{"version":1,"request":{"method":"POST","headers":{"x-command":["request"]},"body_base64":"cmV3cml0dGVuLXJlcXVlc3Q="}}"#,
    )
    .expect("request command should apply");

    assert_eq!(request.method, "POST");
    assert_eq!(request.headers["x-command"], "request");
    assert!(!request.headers.contains_key("x-original"));
    assert_eq!(request.body, b"rewritten-request");
}

#[test]
fn command_rewrite_can_patch_response_status_headers_and_body() {
    let response = rewrite_response(
        response(200, &[("x-original", "removed")], b"original"),
        r#"{"version":1,"response":{"status":201,"headers":{"x-command":["response"]},"body_base64":"cmV3cml0dGVuLXJlc3BvbnNl"}}"#,
    )
    .expect("response command should apply");

    assert_eq!(response.status, 201);
    assert_eq!(response.headers["x-command"], "response");
    assert!(!response.headers.contains_key("x-original"));
    assert_eq!(response.body, b"rewritten-response");
}

#[test]
fn stacks_rewrite_in_order_and_back() {
    let both = || {
        PluginConfig::CommandRewrite(CommandRewriteConfig {
            request: Some(command()),
            response: Some(command()),
        })
    };
    let plugins = build_plugins(&[both(), both()]).expect("plugins should build");
    let sent = pass_request(
        &plugins,
        request("GET", &[], b""),
        &[r#"{"request":{"method":"PUT","body_base64":"MQ=="}}"#, r#"{"request":{"method":"POST"}}"#],
    )
    .expect("request commands should apply");
    assert_eq!(sent.method, "POST");
    assert_eq!(sent.body, b"1");
    let answer = pass_response(
        &plugins,
        response(200, &[], b""),
        &[r#"{"response":{"status":201}}"#, r#"{"response":{"status":202,"body_base64":"Mg=="}}"#],
    )
    .expect("response commands should apply");
    assert_eq!(answer.status, 201);
    assert_eq!(answer.body, b"2");
    let error = pass_request(
        &plugins,
        request("GET", &[], b""),
        &[r#"{"version":2}"#, r#"{"request":{"method":"POST"}}"#],
    )
    .err()
    .expect("the first command should fail");
    assert!(error.to_text().ends_with("unsupported command output protocol version: 2"));
}

#[test]
fn request_input_tells_the_whole_request() {
    let plugin = plugin(Some(command()), None);
    let came = request("GET", &[("x-b", "2"), ("x-a", "1"), ("x-b", "3")], b"hello");
    let RequestStep::Run { input, request, .. } = plugin.on_request(came) else {
        panic!("the command should be run");
    };
    assert_eq!(input.phase, CommandPhase::Request);
    assert!(input.response.is_none());
    let sent = input.request.expect("the input should hold the request");
    assert_eq!(sent.method, "GET");
    assert_eq!(sent.uri, "http://example.test/");
    assert_eq!(sent.body_base64, "aGVsbG8=");
    let entries = sent.headers.entries();
    assert_eq!(entries.len(), 2);
    assert_eq!(entries[0].name, "x-a");
    assert_eq!(entries[0].values, ["1"]);
    assert_eq!(entries[1].name, "x-b");
    assert_eq!(entries[1].values, ["2", "3"]);
    assert_eq!(request.body, b"hello");
}

#[test]
fn response_input_tells_the_whole_response() {
    let plugin = plugin(None, Some(command()));
    let came = response(404, &[("content-type", "text/plain")], &[0, 255, 16]);
    let ResponseStep::Run { input, .. } = plugin.on_response(came) else {
        panic!("the command should be run");
    };
    assert_eq!(input.phase, CommandPhase::Response);
    assert!(input.request.is_none());
    let sent = input.response.expect("the input should hold the response");
    assert_eq!(sent.status, 404);
    assert_eq!(sent.body_base64, "AP8Q");
    assert_eq!(sent.headers.entries()[0].values, ["text/plain"]);
}

#[test]
fn messages_without_a_command_pass() {
    let only_responses = plugin(None, Some(command()));
    let RequestStep::Done { outcome } = only_responses.on_request(request("PUT", &[], b"x")) else {
        panic!("there is no command for requests");
    };
    assert_eq!(outcome.expect("the request should pass").method, "PUT");
    let only_requests = plugin(Some(command()), None).clone();
    let ResponseStep::Done { outcome } = only_requests.on_response(response(204, &[], b"")) else {
        panic!("there is no command for responses");
    };
    assert_eq!(outcome.expect("the response should pass").status, 204);
    assert!(only_responses.requires_buffered_response());
    assert!(!only_responses.has_request_command());
    assert!(only_requests.has_request_command());
    assert!(!only_requests.requires_buffered_response());
}

#[test]
fn echoing_commands_change_nothing() {
    let came = request(
        "PATCH",
        &[("x-b", "2"), ("cookie", "a=b"), ("x-b", "3"), ("host", "example.test")],
        &[0, 1, 254, 255],
    );
    let headers = came.headers.clone();
    let plugin = plugin(Some(command()), None);
    let RequestStep::Run { input, request, .. } = plugin.on_request(came) else {
        panic!("the command should be run");
    };
    let sent = input.request.expect("the input should hold the request");
    let output = CommandOutput {
        version: Some(1),
        request: Some(CommandRequestPatch {
            method: Some(sent.method),
            uri: Some(sent.uri),
            headers: Some(sent.headers),
            body_base64: Some(sent.body_base64),
        }),
        response: None,
    };
    let same = finish_request(request, Ok(output)).expect("the echo should be accepted");
    assert_eq!(same.method, "PATCH");
    assert_eq!(same.uri.text, "http://example.test/");
    assert_eq!(same.headers, headers);
    assert_eq!(same.body, [0, 1, 254, 255]);
}

#[test]
fn echoed_targets_keep_their_text() {
    let mut came = request("GET", &[("x-name", "caf\u{e9}")], b"");
    came.uri = uri("http://a?x");
    assert_eq!(came.uri.text, "http://a/?x");
    let headers = came.headers.clone();
    let plugin = plugin(Some(command()), None);
    let RequestStep::Run { input, request, .. } = plugin.on_request(came) else {
        panic!("the command should be run");
    };
    let sent = input.request.expect("the input should hold the request");
    let output = CommandOutput {
        version: Some(1),
        request: Some(CommandRequestPatch {
            method: Some(sent.method),
            uri: Some(sent.uri),
            headers: Some(sent.headers),
            body_base64: Some(sent.body_base64),
        }),
        response: None,
    };
    let same = finish_request(request, Ok(output)).expect("the echo should be accepted");
    assert_eq!(same.uri.text, "http://a/?x");
    assert_eq!(same.uri.scheme.as_deref(), Some("http"));
    assert_eq!(same.uri.authority.expect("the target has an authority").text, "a");
    assert_eq!(same.uri.path, "/");
    assert_eq!(same.uri.query.as_deref(), Some("x"));
    assert_eq!(same.headers, headers);
}

#[test]
fn echoed_responses_stay_as_they_are() {
    let came = response(503, &[("set-cookie", "a=1"), ("set-cookie", "b=2")], b"\xffbody");
    let headers = came.headers.clone();
    let plugin = plugin(None, Some(command()));
    let ResponseStep::Run { input, response, .. } = plugin.on_response(came) else {
        panic!("the command should be run");
    };
    let sent = input.response.expect("the input should hold the response");
    let output = CommandOutput {
        version: None,
        request: None,
        response: Some(CommandResponsePatch {
            status: Some(sent.status),
            headers: Some(sent.headers),
            body_base64: Some(sent.body_base64),
        }),
    };
    let same = finish_response(response, Ok(output)).expect("the echo should be accepted");
    assert_eq!(same.status, 503);
    assert_eq!(same.headers, headers);
    assert_eq!(same.body, b"\xffbody");
}

#[test]
fn parts_that_are_not_named_stay() {
    let request = rewrite_request(
        request("GET", &[("x-original", "kept")], b"body"),
        r#"{"request":{"uri":"HTTP://Other.test:81/x?y=1"}}"#,
    )
    .expect("request command should apply");
    assert_eq!(request.method, "GET");
    assert_eq!(request.uri.scheme.as_deref(), Some("http"));
    let authority = request.uri.authority.expect("the target should have an authority");
    assert_eq!(authority.text, "Other.test:81");
    assert_eq!(authority.host, "Other.test");
    assert_eq!(authority.port, Some(81));
    assert_eq!(request.uri.path, "/x");
    assert_eq!(request.uri.query.as_deref(), Some("y=1"));
    assert_eq!(request.headers["x-original"], "kept");
    assert_eq!(request.body, b"body");
}

#[test]
fn patch_of_the_other_phase_is_not_taken() {
    let request = rewrite_request(
        request("GET", &[], b""),
        r#"{"version":1,"response":{"status":500}}"#,
    )
    .expect("request command should apply");
    assert_eq!(request.method, "GET");
    let response = rewrite_response(
        response(200, &[], b""),
        r#"{"version":1,"request":{"method":"POST"}}"#,
    )
    .expect("response command should apply");
    assert_eq!(response.status, 200);
}

#[test]
fn rewritten_header_names_are_lowered() {
    let map = headers_from_wire(wire(&[("X-Upper", &["1", "2"])])).expect("headers should be valid");
    let values: Vec<&[u8]> = map.get_all("x-upper").iter().map(|value| value.as_bytes()).collect();
    assert_eq!(values, [b"1", b"2"]);
    assert_eq!(map.keys().next().map(|name| name.as_str()), Some("x-upper"));
}

#[test]
fn names_that_differ_in_case_are_gathered() {
    let map = headers_from_wire(wire(&[("x-a", &["lower"]), ("X-A", &["upper"])]))
        .expect("headers should be valid");
    let values: Vec<&[u8]> = map.get_all("x-a").iter().map(|value| value.as_bytes()).collect();
    assert_eq!(values, [&b"upper"[..], &b"lower"[..]]);
}

#[test]
fn names_without_values_give_no_header() {
    let map = headers_from_wire(wire(&[("x-none", &[])])).expect("headers should be valid");
    assert!(map.is_empty());
    let error = headers_from_wire(wire(&[("bad name", &[])])).err();
    assert!(error.is_some());
}

#[test]
fn faulty_headers_are_refused() {
    let error = headers_from_wire(wire(&[("bad name", &["x"])])).err();
    assert_eq!(
        error.expect("the name should be refused").to_text(),
        "plugin command_rewrite failed: invalid rewritten header name: invalid HTTP header name"
    );
    let error = headers_from_wire(wire(&[("x-a", &["ok", "line\nbreak"])])).err();
    assert_eq!(
        error.expect("the value should be refused").to_text(),
        "plugin command_rewrite failed: invalid rewritten header value: failed to parse header value"
    );
}

#[test]
fn values_in_utf8_are_text() {
    let mut map = http::HeaderMap::new();
    let value = http::HeaderValue::from_bytes("caf\u{e9}".as_bytes()).expect("value should parse");
    map.append("x-name", value);
    let sent = headers_to_wire(&map).expect("the value is UTF-8");
    assert_eq!(sent.entries().len(), 1);
    assert_eq!(sent.entries()[0].name, "x-name");
    assert_eq!(sent.entries()[0].values, ["caf\u{e9}"]);
    let back = headers_from_wire(sent).expect("the text is a value");
    assert_eq!(back, map);
}

#[test]
fn values_of_a_rewritten_header_may_be_any_text() {
    let map = headers_from_wire(wire(&[("x-a", &["\u{4f60}\u{597d} \u{1f600}"])]))
        .expect("the text is a value");
    assert_eq!(map["x-a"].as_bytes(), "\u{4f60}\u{597d} \u{1f600}".as_bytes());
    let sent = headers_to_wire(&map).expect("the value is UTF-8");
    assert_eq!(sent.entries()[0].values, ["\u{4f60}\u{597d} \u{1f600}"]);
}

#[test]
fn values_that_are_no_utf8_are_refused() {
    for bytes in [&b"caf\xe9"[..], b"\xc3", b"\xed\xa0\x80", b"\xc0\xaf"] {
        let mut map = http::HeaderMap::new();
        map.append("x-a", http::HeaderValue::from_bytes(bytes).expect("opaque value"));
        let error = headers_to_wire(&map).err().expect("the value is no UTF-8");
        assert_eq!(
            error.to_text(),
            "plugin command_rewrite failed: header x-a is not valid UTF-8: \
             failed to convert header to a str"
        );
    }
}

#[test]
fn names_that_are_no_tokens_are_not_taken_back() {
    let name = http::HeaderName::from_lowercase(b"x\"y").expect("HTTP/2 takes the name");
    let mut map = http::HeaderMap::new();
    map.append(name, http::HeaderValue::from_static("v"));
    let sent = headers_to_wire(&map).expect("the value is text");
    assert_eq!(sent.entries()[0].name, "x\"y");
    assert!(headers_from_wire(sent).is_err());
}

#[test]
fn plain_wire_headers_go_there_and_back() {
    let map = headers_from_wire(wire(&[("x-b", &["1", ""]), ("accept", &["a b\tc~"])]))
        .expect("headers should be valid");
    let back = headers_to_wire(&map).expect("headers should be text");
    let entries = back.entries();
    assert_eq!(entries.len(), 2);
    assert_eq!(entries[0].name, "accept");
    assert_eq!(entries[0].values, ["a b\tc~"]);
    assert_eq!(entries[1].name, "x-b");
    assert_eq!(entries[1].values, ["1", ""]);
}

#[test]
fn very_many_headers_are_refused_with_an_error() {
    let mut headers = WireHeaders::new();
    for number in 0..25000 {
        headers.insert(format!("x-{number:05}"), vec!["v".to_owned()]);
    }
    let error = headers_from_wire(headers).err().expect("so many names do not fit");
    assert_eq!(
        error.to_text(),
        "plugin command_rewrite failed: too many rewritten headers: max size reached"
    );
}

#[test]
fn only_names_with_values_take_room() {
    let mut headers = WireHeaders::new();
    for number in 0..25000 {
        headers.insert(format!("x-{number:05}"), Vec::new());
    }
    headers.insert("accept".to_owned(), vec!["v".to_owned()]);
    let map = headers_from_wire(headers).expect("one header fits");
    assert_eq!(map.len(), 1);
    assert_eq!(map["accept"], "v");
}

#[test]
fn targets_are_read_back_from_their_text() {
    let targets = [
        "/", "/p?q", "/?", "/p#f", "*", "a", "a:1", "HTTP://User@A:80", "http://a?x", "http://a#f",
        "https://a/b?c?d#e", "FTP://a", "://a", "http://a/caf\u{e9}?\u{e9}", "http://[::1]:8/",
    ];
    for target in targets {
        let patch = |text: &str| CommandOutput {
            version: None,
            request: Some(CommandRequestPatch {
                method: None,
                uri: Some(text.to_owned()),
                headers: None,
                body_base64: None,
            }),
            response: None,
        };
        let first = finish_request(request("GET", &[], b""), Ok(patch(target)))
            .expect("the target should be accepted");
        let text = first.uri.text.clone();
        let first = format!("{:?}", first.uri);
        let second = finish_request(request("GET", &[], b""), Ok(patch(&text)))
            .expect("the text of the target should be accepted");
        assert_eq!(format!("{:?}", second.uri), first);
    }
}

#[test]
fn unreadable_headers_stop_the_rewriting() {
    let mut came = request("GET", &[], b"");
    let value = http::HeaderValue::from_bytes(b"\xff").expect("opaque values are allowed");
    came.headers.append("x-opaque", value);
    let error = rewrite_request(came, "{\"version\":1}").err().expect("the value is no text");
    assert_eq!(
        error.to_text(),
        "plugin command_rewrite failed: header x-opaque is not valid UTF-8: \
         failed to convert header to a str"
    );
}

#[test]
fn faulty_request_patches_are_refused() {
    let refused = |stdout: &str| {
        rewrite_request(request("GET", &[], b""), stdout).err().expect("refusal").to_text()
    };
    assert_eq!(
        refused(r#"{"request":{"method":"BAD METHOD"}}"#),
        "plugin command_rewrite failed: invalid rewritten request method: invalid HTTP method"
    );
    assert_eq!(
        refused(r#"{"request":{"uri":"http://bad host/"}}"#),
        "plugin command_rewrite failed: invalid rewritten request uri: invalid uri character"
    );
    assert_eq!(
        refused(r#"{"request":{"body_base64":"not base64"}}"#),
        "plugin command_rewrite failed: invalid rewritten request body_base64: \
         Invalid symbol 32, offset 3."
    );
}

#[test]
fn faulty_response_patches_are_refused() {
    let refused = |stdout: &str| {
        rewrite_response(response(200, &[], b""), stdout).err().expect("refusal").to_text()
    };
    assert_eq!(
        refused(r#"{"response":{"status":99}}"#),
        "plugin command_rewrite failed: invalid rewritten response status: invalid status code"
    );
    assert_eq!(
        refused(r#"{"response":{"status":1000}}"#),
        "plugin command_rewrite failed: invalid rewritten response status: invalid status code"
    );
    assert_eq!(
        refused(r#"{"response":{"body_base64":"YQ"}}"#),
        "plugin command_rewrite failed: invalid rewritten response body_base64: Invalid padding"
    );
}

#[test]
fn first_fault_of_a_change_is_reported() {
    let change = RequestChange {
        method: Some("BAD METHOD".to_owned()),
        uri: Some(Err("no target".to_owned())),
        headers: None,
        body: Some(Err("no body".to_owned())),
    };
    let error = change_request(request("GET", &[], b""), change).err().expect("refusal");
    assert!(error.to_text().contains("invalid rewritten request method"));
    let change = RequestChange {
        method: Some("OPTIONS".to_owned()),
        uri: Some(Err("no target".to_owned())),
        headers: None,
        body: Some(Err("no body".to_owned())),
    };
    let error = change_request(request("GET", &[], b""), change).err().expect("refusal");
    assert!(error.to_text().ends_with("invalid rewritten request uri: no target"));
    let change = ResponseChange {
        status: Some(999),
        headers: None,
        body: Some(Err("no body".to_owned())),
    };
    let error = change_response(response(200, &[], b""), change).err().expect("refusal");
    assert!(error.to_text().ends_with("invalid rewritten response body_base64: no body"));
}

#[test]
fn failed_runs_fail_the_message() {
    let error = PluginError::Failed { plugin: "command_rewrite", message: "boom".to_owned() };
    let error = finish_request(request("GET", &[], b""), Err(error)).err().expect("failure");
    assert_eq!(error.to_text(), "plugin command_rewrite failed: boom");
}

#[test]
fn every_failure_of_a_run_has_its_message() {
    let runner = runner().clone();
    let says = |event: CommandEvent, message: &str| {
        assert_eq!(
            finished(runner.execute(event)),
            format!("plugin command_rewrite failed: {message}")
        );
    };
    let error = || "why".to_owned();
    says(CommandEvent::EncodeFailed { error: error() }, "failed to encode command input: why");
    says(CommandEvent::SpawnFailed { error: error() }, "failed to spawn command: why");
    says(
        CommandEvent::Spawned { stdin: false, payload: Vec::new() },
        "failed to open command stdin",
    );
    says(CommandEvent::WriteFailed { error: error() }, "failed to write command stdin: why");
    says(CommandEvent::CloseFailed { error: error() }, "failed to close command stdin: why");
    says(CommandEvent::TimedOut, "command timed out");
    says(CommandEvent::WaitFailed { error: error() }, "failed to wait for command: why");
    says(
        CommandEvent::DecodeFailed { error: error() },
        "failed to decode command stdout as JSON: why",
    );
    says(
        CommandEvent::Exited {
            success: true,
            status: "exit status: 0".to_owned(),
            stdout: Vec::new(),
            stderr: b"ignored".to_vec(),
        },
        "command stdout is empty; expected JSON rewrite result",
    );
    says(
        CommandEvent::Exited {
            success: false,
            status: "exit status: 3".to_owned(),
            stdout: b"{}".to_vec(),
            stderr: b" \n broken \xff pipe \n".to_vec(),
        },
        "command exited with status exit status: 3: broken \u{fffd} pipe",
    );
    says(
        CommandEvent::Decoded { output: empty_output(Some(2)) },
        "unsupported command output protocol version: 2",
    );
    says(
        CommandEvent::Decoded { output: empty_output(Some(255)) },
        "unsupported command output protocol version: 255",
    );
    says(
        CommandEvent::Decoded { output: empty_output(Some(0)) },
        "unsupported command output protocol version: 0",
    );
    says(
        CommandEvent::Decoded { output: empty_output(Some(10)) },
        "unsupported command output protocol version: 10",
    );
}

#[test]
fn outputs_may_leave_out_the_version() {
    for version in [None, Some(1)] {
        match runner().execute(CommandEvent::Decoded { output: empty_output(version) }) {
            CommandAction::Finish { outcome } => assert!(outcome.is_ok()),
            _ => panic!("the run should be over"),
        }
    }
}

#[test]
fn commands_get_their_arguments_and_time() {
    let config = CommandConfig {
        program: "python3".to_owned(),
        args: vec!["header_marker.py".to_owned(), "request".to_owned()],
        timeout_ms: 1500,
    };
    let runner = CommandRunner::try_new(config).expect("command should be accepted");
    match runner.execute(CommandEvent::Encoded { payload: b"{}".to_vec() }) {
        CommandAction::Spawn { program, args, timeout_ms, payload } => {
            assert_eq!(program, "python3");
            assert_eq!(args, ["header_marker.py", "request"]);
            assert_eq!(timeout_ms, 1500);
            assert_eq!(payload, b"{}");
        }
        _ => panic!("the command should be run"),
    }
}

#[test]
fn exit_failures_quote_the_trimmed_errors() {
    assert_eq!(
        exit_failure("signal: 9 (SIGKILL)", "\u{2003}bad\r\n").to_text(),
        "plugin command_rewrite failed: command exited with status signal: 9 (SIGKILL): bad"
    );
}

#[test]
fn wire_headers_are_ordered_by_name() {
    let mut headers = wire(&[("x-b", &["1"]), ("x-a", &["2"])]);
    headers.append("x-b".to_owned(), "3".to_owned());
    headers.append("accept".to_owned(), "4".to_owned());
    headers.insert("x-a".to_owned(), vec!["5".to_owned(), "6".to_owned()]);
    let names: Vec<&str> = headers.entries().iter().map(|entry| entry.name.as_str()).collect();
    assert_eq!(names, ["accept", "x-a", "x-b"]);
    assert_eq!(headers.entries()[1].values, ["5", "6"]);
    assert_eq!(headers.entries()[2].values, ["1", "3"]);
}
