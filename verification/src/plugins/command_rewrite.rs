//! Rewriting by an external command.

use vstd::prelude::*;

use crate::codec;
use crate::config::{CommandRewriteConfig, ConfigError};
use crate::headers;
use crate::message::{ProxyRequest, ProxyResponse};
use crate::plugins::command;
use crate::plugins::command::{
    failed, CommandInput, CommandOutput, CommandPhase, CommandRequest, CommandResponse,
    CommandRunner, PROTOCOL_VERSION,
};
use crate::plugins::command_headers;
use crate::plugins::command_headers::{headers_from_wire, headers_to_wire};
use crate::plugins::{PluginError, TrafficPlugin};
use crate::text;
use crate::uri;
use crate::uri::Uri;
use crate::wire::WireHeaders;

verus! {

/// Rewrites requests, responses or both by running a command on each.
#[derive(Debug)]
pub struct CommandRewritePlugin {
    request: Option<CommandRunner>,
    response: Option<CommandRunner>,
}

impl DeepView for CommandRewritePlugin {
    type V = crate::config::CommandRewriteConfigView;

    closed spec fn deep_view(&self) -> crate::config::CommandRewriteConfigView {
        crate::config::CommandRewriteConfigView {
            request: self.request.deep_view(),
            response: self.response.deep_view(),
        }
    }
}

/// Why an optional command cannot be run, if there is one and it cannot.
pub open spec fn optional_fault(config: Option<crate::config::CommandConfigView>) -> Option<
    ConfigError,
> {
    match config {
        Some(config) => command::command_fault(config),
        None => None,
    }
}

/// Why a plugin cannot be built, if it cannot.
pub open spec fn rewrite_fault(config: crate::config::CommandRewriteConfigView) -> Option<
    ConfigError,
> {
    if config.request is None && config.response is None {
        Some(ConfigError::NoCommand)
    } else if optional_fault(config.request) is Some {
        optional_fault(config.request)
    } else {
        optional_fault(config.response)
    }
}

impl CommandRewritePlugin {
    #[verifier::type_invariant]
    closed spec fn valid(&self) -> bool {
        rewrite_fault(self.deep_view()) is None
    }

    /// The plugin of a configuration, which needs a command, and commands that can be run.
    pub fn try_new(config: CommandRewriteConfig) -> (r: Result<Self, ConfigError>)
        ensures
            crate::views::outcome(r) == (match rewrite_fault(config.deep_view()) {
                Some(error) => Err(error),
                None => Ok(config.deep_view()),
            }),
    {
        if config.request.is_none() && config.response.is_none() {
            return Err(ConfigError::NoCommand);
        }
        let request = match config.request {
            Some(command) => match CommandRunner::try_new(command) {
                Ok(runner) => Some(runner),
                Err(error) => return Err(error),
            },
            None => None,
        };
        let response = match config.response {
            Some(command) => match CommandRunner::try_new(command) {
                Ok(runner) => Some(runner),
                Err(error) => return Err(error),
            },
            None => None,
        };
        Ok(CommandRewritePlugin { request, response })
    }
}

fn cloned_runner(runner: &Option<CommandRunner>) -> (r: Option<CommandRunner>)
    ensures
        r.deep_view() == runner.deep_view(),
{
    match runner {
        Some(runner) => Some(runner.clone()),
        None => None,
    }
}

impl Clone for CommandRewritePlugin {
    fn clone(&self) -> (r: Self)
        ensures
            r.deep_view() == self.deep_view(),
    {
        proof {
            use_type_invariant(self);
        }
        CommandRewritePlugin {
            request: cloned_runner(&self.request),
            response: cloned_runner(&self.response),
        }
    }
}

/// What a command gets to rewrite `request`.
pub open spec fn request_input(request: crate::message::RequestView) -> command::CommandInputView {
    command::CommandInputView {
        version: PROTOCOL_VERSION,
        phase: CommandPhase::Request,
        request: Some(
            command::CommandRequestView {
                method: request.method,
                uri: request.uri.text,
                headers: command_headers::header_texts(request.headers),
                body_base64: codec::base64_text(request.body),
            },
        ),
        response: None,
    }
}

/// What a command gets to rewrite `response`.
pub open spec fn response_input(
    response: crate::message::ResponseView,
) -> command::CommandInputView {
    command::CommandInputView {
        version: PROTOCOL_VERSION,
        phase: CommandPhase::Response,
        request: None,
        response: Some(
            command::CommandResponseView {
                status: response.status,
                headers: command_headers::header_texts(response.headers),
                body_base64: codec::base64_text(response.body),
            },
        ),
    }
}

/// Whether `error` says of one of `held` that its value is no UTF-8.
pub open spec fn blames_unreadable(
    held: Map<Seq<char>, Seq<Seq<u8>>>,
    error: crate::plugins::PluginErrorView,
) -> bool {
    exists|name: Seq<char>| #[trigger]
        held.dom().contains(name) && !command_headers::values_readable(held[name]) && error
            == command_headers::unreadable_header(name)
}

/// What a plugin wants after it got a request.
pub enum RequestStep<'a> {
    /// The plugin is through with it.
    Done { outcome: Result<ProxyRequest, PluginError> },
    /// Run the command with the input; then [`finish_request`].
    Run { runner: &'a CommandRunner, input: CommandInput, request: ProxyRequest },
}

/// What a plugin wants after it got a response.
pub enum ResponseStep<'a> {
    /// The plugin is through with it.
    Done { outcome: Result<ProxyResponse, PluginError> },
    /// Run the command with the input; then [`finish_response`].
    Run { runner: &'a CommandRunner, input: CommandInput, response: ProxyResponse },
}

/// Whether `step` hands `request` to the command `runner`, or fails on a header that is no UTF-8.
///
/// The body in the command's input is base64 for the request's body.
pub open spec fn rewrites_request(
    step: RequestStep,
    runner: crate::config::CommandConfigView,
    request: ProxyRequest,
) -> bool {
    match step {
        RequestStep::Run { runner: chosen, input, request: kept } => {
            &&& command_headers::all_readable(headers::contents(request.headers))
            &&& command_headers::is_held(headers::contents(request.headers))
            &&& chosen.deep_view() == runner
            &&& input.deep_view() == request_input(request.deep_view())
            &&& codec::decodes_to(codec::base64_text(request.body@), request.body@)
            &&& kept == request
        },
        RequestStep::Done { outcome } => {
            &&& !command_headers::all_readable(headers::contents(request.headers))
            &&& outcome matches Err(error)
            &&& blames_unreadable(headers::contents(request.headers), error.deep_view())
        },
    }
}

/// Whether `step` hands `response` to the command `runner`, or fails on a header that is no UTF-8.
///
/// The body in the command's input is base64 for the response's body.
pub open spec fn rewrites_response(
    step: ResponseStep,
    runner: crate::config::CommandConfigView,
    response: ProxyResponse,
) -> bool {
    match step {
        ResponseStep::Run { runner: chosen, input, response: kept } => {
            &&& command_headers::all_readable(headers::contents(response.headers))
            &&& command_headers::is_held(headers::contents(response.headers))
            &&& chosen.deep_view() == runner
            &&& input.deep_view() == response_input(response.deep_view())
            &&& codec::decodes_to(codec::base64_text(response.body@), response.body@)
            &&& kept == response
        },
        ResponseStep::Done { outcome } => {
            &&& !command_headers::all_readable(headers::contents(response.headers))
            &&& outcome matches Err(error)
            &&& blames_unreadable(headers::contents(response.headers), error.deep_view())
        },
    }
}

/// Starts the rewriting of `request` by the command `runner`.
pub fn rewrite_request(runner: &CommandRunner, request: ProxyRequest) -> (step: RequestStep<'_>)
    requires
        codec::fits_base64(request.body@.len()),
    ensures
        rewrites_request(step, runner.deep_view(), request),
{
    let headers = match headers_to_wire(&request.headers) {
        Ok(headers) => headers,
        Err(error) => return RequestStep::Done { outcome: Err(error) },
    };
    let input = CommandInput {
        version: PROTOCOL_VERSION,
        phase: CommandPhase::Request,
        request: Some(
            CommandRequest {
                method: request.method.clone(),
                uri: request.uri.text.clone(),
                headers,
                body_base64: codec::encode_base64(request.body.as_slice()),
            },
        ),
        response: None,
    };
    RequestStep::Run { runner, input, request }
}

/// Starts the rewriting of `response` by the command `runner`.
pub fn rewrite_response(runner: &CommandRunner, response: ProxyResponse) -> (step: ResponseStep<
    '_,
>)
    requires
        codec::fits_base64(response.body@.len()),
    ensures
        rewrites_response(step, runner.deep_view(), response),
{
    let headers = match headers_to_wire(&response.headers) {
        Ok(headers) => headers,
        Err(error) => return ResponseStep::Done { outcome: Err(error) },
    };
    let input = CommandInput {
        version: PROTOCOL_VERSION,
        phase: CommandPhase::Response,
        request: None,
        response: Some(
            CommandResponse {
                status: response.status,
                headers,
                body_base64: codec::encode_base64(response.body.as_slice()),
            },
        ),
    };
    ResponseStep::Run { runner, input, response }
}

impl TrafficPlugin for CommandRewritePlugin {
    fn name(&self) -> (r: &'static str)
        ensures
            r@ == "command_rewrite"@,
    {
        "command_rewrite"
    }

    /// Responses are rewritten, and so collected whole, where there is a command for them.
    fn requires_buffered_response(&self) -> (required: bool)
        ensures
            required == (self.deep_view().response is Some),
    {
        self.response.is_some()
    }
}

impl CommandRewritePlugin {
    /// Whether there is a command for requests.
    pub fn has_request_command(&self) -> (r: bool)
        ensures
            r == (self.deep_view().request is Some),
    {
        self.request.is_some()
    }

    /// Takes a request: it is handed to the command for requests, if there is one.
    pub fn on_request(&self, request: ProxyRequest) -> (step: RequestStep<'_>)
        requires
            self.deep_view().request is Some ==> codec::fits_base64(request.body@.len()),
        ensures
            match self.deep_view().request {
                Some(runner) => rewrites_request(step, runner, request),
                None => step == (RequestStep::Done { outcome: Ok(request) }),
            },
    {
        match &self.request {
            Some(runner) => rewrite_request(runner, request),
            None => RequestStep::Done { outcome: Ok(request) },
        }
    }

    /// Takes a response: it is handed to the command for responses, if there is one.
    pub fn on_response(&self, response: ProxyResponse) -> (step: ResponseStep<'_>)
        requires
            self.deep_view().response is Some ==> codec::fits_base64(response.body@.len()),
        ensures
            match self.deep_view().response {
                Some(runner) => rewrites_response(step, runner, response),
                None => step == (ResponseStep::Done { outcome: Ok(response) }),
            },
    {
        match &self.response {
            Some(runner) => rewrite_response(runner, response),
            None => ResponseStep::Done { outcome: Ok(response) },
        }
    }
}

/// The changes that a command asks for in a request, with its texts read as what they stand for.
#[derive(Debug)]
pub struct RequestChange {
    pub method: Option<String>,
    pub uri: Option<Result<Uri, String>>,
    pub headers: Option<WireHeaders>,
    pub body: Option<Result<Vec<u8>, String>>,
}

/// The changes that a command asks for in a response, with its texts read as what they stand for.
#[derive(Debug)]
pub struct ResponseChange {
    pub status: Option<u16>,
    pub headers: Option<WireHeaders>,
    pub body: Option<Result<Vec<u8>, String>>,
}

/// The content of a [`RequestChange`].
#[verifier::ext_equal]
pub struct RequestChangeView {
    pub method: Option<Seq<char>>,
    pub uri: Option<Result<crate::uri::UriView, Seq<char>>>,
    pub headers: Option<Map<Seq<char>, Seq<Seq<char>>>>,
    pub body: Option<Result<Seq<u8>, Seq<char>>>,
}

/// The content of a [`ResponseChange`].
#[verifier::ext_equal]
pub struct ResponseChangeView {
    pub status: Option<u16>,
    pub headers: Option<Map<Seq<char>, Seq<Seq<char>>>>,
    pub body: Option<Result<Seq<u8>, Seq<char>>>,
}

/// An optional result by its content.
pub open spec fn optional_outcome<T: DeepView, E: DeepView>(r: Option<Result<T, E>>) -> Option<
    Result<T::V, E::V>,
> {
    match r {
        Some(r) => Some(crate::views::outcome(r)),
        None => None,
    }
}

impl DeepView for RequestChange {
    type V = RequestChangeView;

    open spec fn deep_view(&self) -> RequestChangeView {
        RequestChangeView {
            method: self.method.deep_view(),
            uri: optional_outcome(self.uri),
            headers: self.headers.deep_view(),
            body: optional_outcome(self.body),
        }
    }
}

impl DeepView for ResponseChange {
    type V = ResponseChangeView;

    open spec fn deep_view(&self) -> ResponseChangeView {
        ResponseChangeView {
            status: self.status,
            headers: self.headers.deep_view(),
            body: optional_outcome(self.body),
        }
    }
}

/// The bytes that an optional base64 text stands for.
pub open spec fn read_body(text: Option<Seq<char>>) -> Option<Result<Seq<u8>, Seq<char>>> {
    match text {
        Some(text) => Some(codec::base64_bytes(text)),
        None => None,
    }
}

/// The changes that `patch` asks for.
pub open spec fn request_change(patch: command::CommandRequestPatchView) -> RequestChangeView {
    RequestChangeView {
        method: patch.method,
        uri: match patch.uri {
            Some(text) => Some(uri::parsed_uri(text)),
            None => None,
        },
        headers: patch.headers,
        body: read_body(patch.body_base64),
    }
}

/// The changes that `patch` asks for.
pub open spec fn response_change(patch: command::CommandResponsePatchView) -> ResponseChangeView {
    ResponseChangeView {
        status: patch.status,
        headers: patch.headers,
        body: read_body(patch.body_base64),
    }
}

/// The method after a change.
pub open spec fn changed_method(before: Seq<char>, change: Option<Seq<char>>) -> Result<
    Seq<char>,
    crate::plugins::PluginErrorView,
> {
    match change {
        None => Ok(before),
        Some(method) => if headers::is_token(method) {
            Ok(method)
        } else {
            Err(command::failure("invalid rewritten request method: "@ + "invalid HTTP method"@))
        },
    }
}

/// The target after a change.
pub open spec fn changed_uri(
    before: crate::uri::UriView,
    change: Option<Result<crate::uri::UriView, Seq<char>>>,
) -> Result<crate::uri::UriView, crate::plugins::PluginErrorView> {
    match change {
        None => Ok(before),
        Some(Ok(uri)) => Ok(uri),
        Some(Err(error)) => Err(command::failure("invalid rewritten request uri: "@ + error)),
    }
}

/// The status after a change.
pub open spec fn changed_status(before: u16, change: Option<u16>) -> Result<
    u16,
    crate::plugins::PluginErrorView,
> {
    match change {
        None => Ok(before),
        Some(status) => if 100 <= status <= 999 {
            Ok(status)
        } else {
            Err(command::failure("invalid rewritten response status: "@ + "invalid status code"@))
        },
    }
}

/// The headers after a change, which replaces all of them.
pub open spec fn changed_headers(
    before: Map<Seq<char>, Seq<Seq<u8>>>,
    change: Option<Map<Seq<char>, Seq<Seq<char>>>>,
) -> Result<Map<Seq<char>, Seq<Seq<u8>>>, crate::plugins::PluginErrorView> {
    match change {
        None => Ok(before),
        Some(map) => command_headers::headers_of(map),
    }
}

/// The body after a change; `fault` starts the message about a text that is no base64.
pub open spec fn changed_body(
    before: Seq<u8>,
    change: Option<Result<Seq<u8>, Seq<char>>>,
    fault: Seq<char>,
) -> Result<Seq<u8>, crate::plugins::PluginErrorView> {
    match change {
        None => Ok(before),
        Some(Ok(body)) => Ok(body),
        Some(Err(error)) => Err(command::failure(fault + error)),
    }
}

/// `request` with `change`: what it names is replaced, and the first fault is the failure.
pub open spec fn changed_request(
    request: crate::message::RequestView,
    change: RequestChangeView,
) -> Result<crate::message::RequestView, crate::plugins::PluginErrorView> {
    match changed_method(request.method, change.method) {
        Err(error) => Err(error),
        Ok(method) => match changed_uri(request.uri, change.uri) {
            Err(error) => Err(error),
            Ok(uri) => match changed_headers(request.headers, change.headers) {
                Err(error) => Err(error),
                Ok(headers) => match changed_body(
                    request.body,
                    change.body,
                    "invalid rewritten request body_base64: "@,
                ) {
                    Err(error) => Err(error),
                    Ok(body) => Ok(crate::message::RequestView { method, uri, headers, body }),
                },
            },
        },
    }
}

/// `response` with `change`: what it names is replaced, and the first fault is the failure.
pub open spec fn changed_response(
    response: crate::message::ResponseView,
    change: ResponseChangeView,
) -> Result<crate::message::ResponseView, crate::plugins::PluginErrorView> {
    match changed_status(response.status, change.status) {
        Err(error) => Err(error),
        Ok(status) => match changed_headers(response.headers, change.headers) {
            Err(error) => Err(error),
            Ok(headers) => match changed_body(
                response.body,
                change.body,
                "invalid rewritten response body_base64: "@,
            ) {
                Err(error) => Err(error),
                Ok(body) => Ok(crate::message::ResponseView { status, headers, body }),
            },
        },
    }
}

/// Whether `actual` is `expected`, or the refusal of more headers than a map surely takes.
pub open spec fn meets<V>(
    actual: Result<V, crate::plugins::PluginErrorView>,
    expected: Result<V, crate::plugins::PluginErrorView>,
    headers: Option<Map<Seq<char>, Seq<Seq<char>>>>,
) -> bool {
    ||| actual == expected
    ||| {
        &&& headers matches Some(map)
        &&& !command_headers::is_roomy(map)
        &&& actual == Err::<V, _>(command_headers::too_many_headers())
    }
}

/// Changes `request`.
pub fn change_request(request: ProxyRequest, change: RequestChange) -> (r: Result<
    ProxyRequest,
    PluginError,
>)
    ensures
        meets(
            crate::views::outcome(r),
            changed_request(request.deep_view(), change.deep_view()),
            change.deep_view().headers,
        ),
{
    let mut request = request;
    if let Some(method) = change.method {
        match headers::parse_method(method.as_str()) {
            Ok(method) => request.method = method,
            Err(error) => return Err(
                failed(text::join2("invalid rewritten request method: ", error.as_str())),
            ),
        }
    }
    if let Some(uri) = change.uri {
        match uri {
            Ok(uri) => request.uri = uri,
            Err(error) => return Err(
                failed(text::join2("invalid rewritten request uri: ", error.as_str())),
            ),
        }
    }
    if let Some(wire) = change.headers {
        match headers_from_wire(wire) {
            Ok(headers) => request.headers = headers,
            Err(error) => return Err(error),
        }
    }
    if let Some(body) = change.body {
        match body {
            Ok(body) => {
                assert(body.deep_view() =~= body@);
                request.body = body;
            },
            Err(error) => return Err(
                failed(text::join2("invalid rewritten request body_base64: ", error.as_str())),
            ),
        }
    }
    Ok(request)
}

/// Changes `response`.
pub fn change_response(response: ProxyResponse, change: ResponseChange) -> (r: Result<
    ProxyResponse,
    PluginError,
>)
    ensures
        meets(
            crate::views::outcome(r),
            changed_response(response.deep_view(), change.deep_view()),
            change.deep_view().headers,
        ),
{
    let mut response = response;
    if let Some(status) = change.status {
        match headers::parse_status(status) {
            Ok(status) => response.status = status,
            Err(error) => return Err(
                failed(text::join2("invalid rewritten response status: ", error.as_str())),
            ),
        }
    }
    if let Some(wire) = change.headers {
        match headers_from_wire(wire) {
            Ok(headers) => response.headers = headers,
            Err(error) => return Err(error),
        }
    }
    if let Some(body) = change.body {
        match body {
            Ok(body) => {
                assert(body.deep_view() =~= body@);
                response.body = body;
            },
            Err(error) => return Err(
                failed(text::join2("invalid rewritten response body_base64: ", error.as_str())),
            ),
        }
    }
    Ok(response)
}

fn decode_body(text: Option<String>) -> (r: Option<Result<Vec<u8>, String>>)
    ensures
        optional_outcome(r) == read_body(text.deep_view()),
{
    match text {
        Some(text) => Some(codec::decode_base64(text.as_str())),
        None => None,
    }
}

/// What the output of a command makes of `request`; without a patch it stays as it is.
pub open spec fn rewritten_request(
    request: crate::message::RequestView,
    output: command::CommandOutputView,
) -> Result<crate::message::RequestView, crate::plugins::PluginErrorView> {
    match output.request {
        Some(patch) => changed_request(request, request_change(patch)),
        None => Ok(request),
    }
}

/// What the output of a command makes of `response`; without a patch it stays as it is.
pub open spec fn rewritten_response(
    response: crate::message::ResponseView,
    output: command::CommandOutputView,
) -> Result<crate::message::ResponseView, crate::plugins::PluginErrorView> {
    match output.response {
        Some(patch) => changed_response(response, response_change(patch)),
        None => Ok(response),
    }
}

/// Ends the rewriting of `request` with what the run of the command came to.
pub fn finish_request(request: ProxyRequest, ran: Result<CommandOutput, PluginError>) -> (r: Result<
    ProxyRequest,
    PluginError,
>)
    ensures
        match ran {
            Ok(output) => meets(
                crate::views::outcome(r),
                rewritten_request(request.deep_view(), output.deep_view()),
                match output.deep_view().request {
                    Some(patch) => patch.headers,
                    None => None,
                },
            ),
            Err(error) => r == Err::<ProxyRequest, _>(error),
        },
        uri::reads_back(request.deep_view().uri) ==> (r matches Ok(after) ==> uri::reads_back(
            after.deep_view().uri,
        )),
{
    let output = match ran {
        Ok(output) => output,
        Err(error) => return Err(error),
    };
    match output.request {
        Some(patch) => {
            let uri = match patch.uri {
                Some(text) => Some(uri::parse_uri(text.as_str())),
                None => None,
            };
            let change = RequestChange {
                method: patch.method,
                uri,
                headers: patch.headers,
                body: decode_body(patch.body_base64),
            };
            change_request(request, change)
        },
        None => Ok(request),
    }
}

/// Ends the rewriting of `response` with what the run of the command came to.
pub fn finish_response(response: ProxyResponse, ran: Result<CommandOutput, PluginError>) -> (r:
    Result<ProxyResponse, PluginError>)
    ensures
        match ran {
            Ok(output) => meets(
                crate::views::outcome(r),
                rewritten_response(response.deep_view(), output.deep_view()),
                match output.deep_view().response {
                    Some(patch) => patch.headers,
                    None => None,
                },
            ),
            Err(error) => r == Err::<ProxyResponse, _>(error),
        },
{
    let output = match ran {
        Ok(output) => output,
        Err(error) => return Err(error),
    };
    match output.response {
        Some(patch) => {
            let change = ResponseChange {
                status: patch.status,
                headers: patch.headers,
                body: decode_body(patch.body_base64),
            };
            change_response(response, change)
        },
        None => Ok(response),
    }
}

/// An output without a patch leaves the message as it is.
pub proof fn no_patch_no_change(
    request: crate::message::RequestView,
    response: crate::message::ResponseView,
    output: command::CommandOutputView,
)
    ensures
        output.request is None ==> rewritten_request(request, output) == Ok::<
            _,
            crate::plugins::PluginErrorView,
        >(request),
        output.response is None ==> rewritten_response(response, output) == Ok::<
            _,
            crate::plugins::PluginErrorView,
        >(response),
{
}

/// A patch of a request replaces what it names, the headers as a whole, and keeps the rest.
pub proof fn request_patch_replaces_what_it_names(
    request: crate::message::RequestView,
    output: command::CommandOutputView,
    patch: command::CommandRequestPatchView,
    after: crate::message::RequestView,
)
    requires
        output.request == Some(patch),
        rewritten_request(request, output) == Ok::<_, crate::plugins::PluginErrorView>(after),
    ensures
        match patch.method {
            Some(method) => after.method == method,
            None => after.method == request.method,
        },
        match patch.uri {
            Some(text) => uri::parsed_uri(text) == Ok::<_, Seq<char>>(after.uri),
            None => after.uri == request.uri,
        },
        match patch.headers {
            Some(map) => command_headers::headers_of(map) == Ok::<
                _,
                crate::plugins::PluginErrorView,
            >(after.headers),
            None => after.headers == request.headers,
        },
        match patch.body_base64 {
            Some(text) => codec::decodes_to(text, after.body),
            None => after.body == request.body,
        },
{
}

/// A patch of a response replaces what it names, the headers as a whole, and keeps the rest.
pub proof fn response_patch_replaces_what_it_names(
    response: crate::message::ResponseView,
    output: command::CommandOutputView,
    patch: command::CommandResponsePatchView,
    after: crate::message::ResponseView,
)
    requires
        output.response == Some(patch),
        rewritten_response(response, output) == Ok::<_, crate::plugins::PluginErrorView>(after),
    ensures
        match patch.status {
            Some(status) => after.status == status,
            None => after.status == response.status,
        },
        match patch.headers {
            Some(map) => command_headers::headers_of(map) == Ok::<
                _,
                crate::plugins::PluginErrorView,
            >(after.headers),
            None => after.headers == response.headers,
        },
        match patch.body_base64 {
            Some(text) => codec::decodes_to(text, after.body),
            None => after.body == response.body,
        },
{
}

/// A command that answers with the request that it got leaves the request as it is.
///
/// The request is one that can be: its method, target and headers are valid, its target is not
/// too long to be read from its text, and its header values are text.
pub proof fn echoed_request_is_unchanged(
    request: crate::message::RequestView,
    output: command::CommandOutputView,
)
    requires
        headers::is_token(request.method),
        uri::reads_back(request.uri),
        uri::is_short(request.uri.text),
        command_headers::is_held(request.headers),
        command_headers::is_returnable(request.headers),
        command_headers::all_readable(request.headers),
        codec::decodes_to(codec::base64_text(request.body), request.body),
        request_input(request).request matches Some(sent) && output.request == Some(
            command::CommandRequestPatchView {
                method: Some(sent.method),
                uri: Some(sent.uri),
                headers: Some(sent.headers),
                body_base64: Some(sent.body_base64),
            },
        ),
    ensures
        rewritten_request(request, output) == Ok::<_, crate::plugins::PluginErrorView>(request),
{
    command_headers::headers_round_trip(request.headers);
}

/// A command that answers with the response that it got leaves the response as it is.
///
/// The response is one that can be: its status and headers are valid, and its header values are
/// text.
pub proof fn echoed_response_is_unchanged(
    response: crate::message::ResponseView,
    output: command::CommandOutputView,
)
    requires
        100 <= response.status <= 999,
        command_headers::is_held(response.headers),
        command_headers::is_returnable(response.headers),
        command_headers::all_readable(response.headers),
        codec::decodes_to(codec::base64_text(response.body), response.body),
        response_input(response).response matches Some(sent) && output.response == Some(
            command::CommandResponsePatchView {
                status: Some(sent.status),
                headers: Some(sent.headers),
                body_base64: Some(sent.body_base64),
            },
        ),
    ensures
        rewritten_response(response, output) == Ok::<_, crate::plugins::PluginErrorView>(response),
{
    command_headers::headers_round_trip(response.headers);
}

/// A plugin can be built if and only if it has a command and each of its commands can be run.
/// Without a command that is what it lacks; otherwise it is what its first faulty command lacks.
pub proof fn plugins_need_commands_that_run(config: crate::config::CommandRewriteConfigView)
    ensures
        rewrite_fault(config) == Some(ConfigError::NoCommand) <==> config.request is None
            && config.response is None,
        rewrite_fault(config) is None <==> {
            &&& config.request is Some || config.response is Some
            &&& config.request matches Some(command) ==> command::command_fault(command) is None
            &&& config.response matches Some(command) ==> command::command_fault(command) is None
        },
        config.request matches Some(command) ==> command::command_fault(command) is Some
            ==> rewrite_fault(config) == command::command_fault(command),
        config.response matches Some(command) ==> (config.request matches Some(first)
            ==> command::command_fault(first) is None) ==> rewrite_fault(config)
            == command::command_fault(command),
{
    if let Some(command) = config.request {
        command::commands_need_a_name_and_time(command);
    }
    if let Some(command) = config.response {
        command::commands_need_a_name_and_time(command);
    }
}

/// Whether the wire form `said` says what `held` holds: every name, with every value, in UTF-8.
pub open spec fn says_headers(
    said: Map<Seq<char>, Seq<Seq<char>>>,
    held: Map<Seq<char>, Seq<Seq<u8>>>,
) -> bool {
    &&& said.dom() == held.dom()
    &&& forall|name: Seq<char>|
        held.dom().contains(name) ==> (#[trigger] said[name]).len() == held[name].len()
    &&& forall|name: Seq<char>, i: int|
        held.dom().contains(name) && 0 <= i < held[name].len() ==> vstd::utf8::encode_utf8(
            #[trigger] said[name][i],
        ) == held[name][i]
}

/// Whether all values in `held` are valid UTF-8.
pub open spec fn is_utf8(held: Map<Seq<char>, Seq<Seq<u8>>>) -> bool {
    forall|name: Seq<char>, i: int|
        held.dom().contains(name) && 0 <= i < held[name].len() ==> vstd::utf8::valid_utf8(
            #[trigger] held[name][i],
        )
}

/// A command for requests is run if and only if all header values are UTF-8. It is the configured
/// one, it is told the whole request and no response, and the request itself is kept.
pub proof fn commands_are_told_the_whole_request(
    step: RequestStep,
    runner: crate::config::CommandConfigView,
    request: ProxyRequest,
)
    requires
        rewrites_request(step, runner, request),
    ensures
        step is Run <==> is_utf8(headers::contents(request.headers)),
        step matches RequestStep::Run { runner: chosen, input, request: kept } ==> {
            &&& chosen.deep_view() == runner
            &&& kept == request
            &&& input.deep_view().version == 1
            &&& input.deep_view().phase == CommandPhase::Request
            &&& input.deep_view().response is None
            &&& input.deep_view().request matches Some(told) && told.method == request.method@
                && told.uri == request.uri.text@ && codec::decodes_to(
                told.body_base64,
                request.body@,
            ) && says_headers(told.headers, headers::contents(request.headers))
        },
        step matches RequestStep::Done { outcome } ==> (outcome matches Err(
            PluginError::Failed { plugin, message },
        ) && plugin@ == "command_rewrite"@ && exists|name: Seq<char>, i: int|
            #![trigger headers::contents(request.headers)[name][i]]
            headers::contents(request.headers).dom().contains(name) && 0 <= i
                < headers::contents(request.headers)[name].len() && !vstd::utf8::valid_utf8(
                headers::contents(request.headers)[name][i],
            ) && message@ == "header "@ + name + " is not valid UTF-8: "@
                + "failed to convert header to a str"@),
{
    let held = headers::contents(request.headers);
    command_headers::headers_are_text_value_by_value(held);
    if command_headers::all_readable(held) {
        command_headers::wire_form_says_every_value(held);
    }
    match step {
        RequestStep::Run { .. } => {},
        RequestStep::Done { outcome } => {
            let error = outcome->Err_0.deep_view();
            let name = choose|name: Seq<char>| #[trigger]
                held.dom().contains(name) && !command_headers::values_readable(held[name]) && error
                    == command_headers::unreadable_header(name);
            let i = choose|i: int|
                0 <= i < held[name].len() && !vstd::utf8::valid_utf8(#[trigger] held[name][i]);
            assert(!vstd::utf8::valid_utf8(held[name][i]));
        },
    }
}

/// A command for responses is run if and only if all header values are UTF-8. It is the configured
/// one, it is told the whole response and no request, and the response itself is kept.
pub proof fn commands_are_told_the_whole_response(
    step: ResponseStep,
    runner: crate::config::CommandConfigView,
    response: ProxyResponse,
)
    requires
        rewrites_response(step, runner, response),
    ensures
        step is Run <==> is_utf8(headers::contents(response.headers)),
        step matches ResponseStep::Run { runner: chosen, input, response: kept } ==> {
            &&& chosen.deep_view() == runner
            &&& kept == response
            &&& input.deep_view().version == 1
            &&& input.deep_view().phase == CommandPhase::Response
            &&& input.deep_view().request is None
            &&& input.deep_view().response matches Some(told) && told.status == response.status
                && codec::decodes_to(told.body_base64, response.body@) && says_headers(
                told.headers,
                headers::contents(response.headers),
            )
        },
        step matches ResponseStep::Done { outcome } ==> (outcome matches Err(
            PluginError::Failed { plugin, message },
        ) && plugin@ == "command_rewrite"@ && exists|name: Seq<char>, i: int|
            #![trigger headers::contents(response.headers)[name][i]]
            headers::contents(response.headers).dom().contains(name) && 0 <= i
                < headers::contents(response.headers)[name].len() && !vstd::utf8::valid_utf8(
                headers::contents(response.headers)[name][i],
            ) && message@ == "header "@ + name + " is not valid UTF-8: "@
                + "failed to convert header to a str"@),
{
    let held = headers::contents(response.headers);
    command_headers::headers_are_text_value_by_value(held);
    if command_headers::all_readable(held) {
        command_headers::wire_form_says_every_value(held);
    }
    match step {
        ResponseStep::Run { .. } => {},
        ResponseStep::Done { outcome } => {
            let error = outcome->Err_0.deep_view();
            let name = choose|name: Seq<char>| #[trigger]
                held.dom().contains(name) && !command_headers::values_readable(held[name]) && error
                    == command_headers::unreadable_header(name);
            let i = choose|i: int|
                0 <= i < held[name].len() && !vstd::utf8::valid_utf8(#[trigger] held[name][i]);
            assert(!vstd::utf8::valid_utf8(held[name][i]));
        },
    }
}

/// Whether `outcome` is a failure of this plugin that says `message`.
pub open spec fn fails_with<V>(
    outcome: Result<V, crate::plugins::PluginErrorView>,
    message: Seq<char>,
) -> bool {
    outcome matches Err(crate::plugins::PluginErrorView::Failed { plugin, message: said })
        && plugin == "command_rewrite"@ && said == message
}

/// What becomes of a request when a command has answered with a patch. A method that is no token, a
/// target that cannot be read, headers that are not valid and a body that is no base64 are refused,
/// in this order. A patch without any of these is taken: the request is what it was, but for what
/// the patch names. Only headers of very many names may be refused besides.
pub proof fn request_patches_are_taken_or_refused(
    request: crate::message::RequestView,
    output: command::CommandOutputView,
    patch: command::CommandRequestPatchView,
    outcome: Result<crate::message::RequestView, crate::plugins::PluginErrorView>,
)
    requires
        output.request == Some(patch),
        meets(outcome, rewritten_request(request, output), patch.headers),
        patch.headers matches Some(map) ==> command_headers::is_roomy(map),
    ensures
        ({
            let method_is_bad = patch.method matches Some(method) && !headers::is_token(method);
            let uri_is_bad = patch.uri matches Some(text) && uri::parsed_uri(text) is Err;
            let headers_are_bad = patch.headers matches Some(map) && command_headers::headers_of(
                map,
            ) is Err;
            let body_is_bad = patch.body_base64 matches Some(text) && codec::base64_bytes(
                text,
            ) is Err;
            if method_is_bad {
                fails_with(outcome, "invalid rewritten request method: "@ + "invalid HTTP method"@)
            } else if uri_is_bad {
                fails_with(
                    outcome,
                    "invalid rewritten request uri: "@ + uri::parsed_uri(patch.uri->0)->Err_0,
                )
            } else if headers_are_bad {
                outcome is Err && outcome->Err_0 == command_headers::headers_of(
                    patch.headers->0,
                )->Err_0
            } else if body_is_bad {
                fails_with(
                    outcome,
                    "invalid rewritten request body_base64: "@ + codec::base64_bytes(
                        patch.body_base64->0,
                    )->Err_0,
                )
            } else {
                &&& outcome is Ok
                &&& outcome->Ok_0.method == (match patch.method {
                    Some(method) => method,
                    None => request.method,
                })
                &&& outcome->Ok_0.uri == (match patch.uri {
                    Some(text) => uri::parsed_uri(text)->Ok_0,
                    None => request.uri,
                })
                &&& outcome->Ok_0.headers == (match patch.headers {
                    Some(map) => command_headers::headers_of(map)->Ok_0,
                    None => request.headers,
                })
                &&& outcome->Ok_0.body == (match patch.body_base64 {
                    Some(text) => codec::base64_bytes(text)->Ok_0,
                    None => request.body,
                })
            }
        }),
{
}

/// What becomes of a response when a command has answered with a patch. A status that has not three
/// digits, headers that are not valid and a body that is no base64 are refused, in this order. A
/// patch without any of these is taken: the response is what it was, but for what the patch names.
/// Only headers of very many names may be refused besides.
pub proof fn response_patches_are_taken_or_refused(
    response: crate::message::ResponseView,
    output: command::CommandOutputView,
    patch: command::CommandResponsePatchView,
    outcome: Result<crate::message::ResponseView, crate::plugins::PluginErrorView>,
)
    requires
        output.response == Some(patch),
        meets(outcome, rewritten_response(response, output), patch.headers),
        patch.headers matches Some(map) ==> command_headers::is_roomy(map),
    ensures
        ({
            let status_is_bad = patch.status matches Some(status) && !(100 <= status <= 999);
            let headers_are_bad = patch.headers matches Some(map) && command_headers::headers_of(
                map,
            ) is Err;
            let body_is_bad = patch.body_base64 matches Some(text) && codec::base64_bytes(
                text,
            ) is Err;
            if status_is_bad {
                fails_with(outcome, "invalid rewritten response status: "@ + "invalid status code"@)
            } else if headers_are_bad {
                outcome is Err && outcome->Err_0 == command_headers::headers_of(
                    patch.headers->0,
                )->Err_0
            } else if body_is_bad {
                fails_with(
                    outcome,
                    "invalid rewritten response body_base64: "@ + codec::base64_bytes(
                        patch.body_base64->0,
                    )->Err_0,
                )
            } else {
                &&& outcome is Ok
                &&& outcome->Ok_0.status == (match patch.status {
                    Some(status) => status,
                    None => response.status,
                })
                &&& outcome->Ok_0.headers == (match patch.headers {
                    Some(map) => command_headers::headers_of(map)->Ok_0,
                    None => response.headers,
                })
                &&& outcome->Ok_0.body == (match patch.body_base64 {
                    Some(text) => codec::base64_bytes(text)->Ok_0,
                    None => response.body,
                })
            }
        }),
{
}

/// Headers may be refused for their number only from 6554 names on that have a value, counted in
/// lower case; every other refusal, and every success, is what the answer itself calls for.
pub proof fn few_headers_are_never_too_many<V>(
    actual: Result<V, crate::plugins::PluginErrorView>,
    expected: Result<V, crate::plugins::PluginErrorView>,
    map: Map<Seq<char>, Seq<Seq<char>>>,
    names: Set<Seq<char>>,
)
    requires
        meets(actual, expected, Some(map)),
        names.finite(),
        names.len() < 6554,
        map.dom().finite(),
        forall|name: Seq<char>|
            map.dom().contains(name) && (#[trigger] map[name]).len() > 0 ==> names.contains(
                text::ascii_lowered(name),
            ),
    ensures
        actual == expected,
{
    let taken = command_headers::names_taken(map);
    assert forall|name: Seq<char>| taken.contains(name) implies names.contains(name) by {
        let key = choose|key: Seq<char>|
            map.dom().filter(|name: Seq<char>| map[name].len() > 0).contains(key) && name
                == text::ascii_lowered(key);
        assert(map[key].len() > 0);
    }
    vstd::set_lib::lemma_len_subset(taken, names);
}

/// Without headers in it an answer comes to exactly what it calls for; and an answer without a patch
/// leaves every request and every response as it is.
pub proof fn answers_without_headers_are_exact(
    request: crate::message::RequestView,
    response: crate::message::ResponseView,
    output: command::CommandOutputView,
    requested: Result<crate::message::RequestView, crate::plugins::PluginErrorView>,
    responded: Result<crate::message::ResponseView, crate::plugins::PluginErrorView>,
)
    requires
        meets(requested, rewritten_request(request, output), None),
        meets(responded, rewritten_response(response, output), None),
    ensures
        requested == rewritten_request(request, output),
        responded == rewritten_response(response, output),
        output.request is None ==> (requested matches Ok(after) && after == request),
        output.response is None ==> (responded matches Ok(after) && after == response),
{
}

} // verus!
