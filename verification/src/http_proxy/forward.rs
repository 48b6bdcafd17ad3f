//! The way of a request to the upstream, and of the response back.

use vstd::prelude::*;

use crate::headers;
use crate::http_proxy;
use crate::http_proxy::target;
use crate::http_proxy::target::normalize_request;
use crate::http_proxy::{is_sse_response, ProxyError};
use crate::message::{ProxyRequest, ProxyResponse};
use crate::plugins;
use crate::plugins::{
    apply_request_plugins, apply_response_plugins, has_buffered_response_plugins, PluginError,
    TrafficPlugin, Turn,
};

verus! {

/// What has happened to a request that is being forwarded.
#[derive(Debug)]
pub enum ForwardEvent<'a> {
    /// The request came in, with its whole body.
    Received { request: ProxyRequest },
    /// Something that was asked for could not be done.
    Broken { message: String },
    /// The plugin at this place of the stack is through with the request.
    RequestPassed { plugin: usize, onward: Result<ProxyRequest, PluginError> },
    /// The upstream has sent the head of its response, with these headers.
    Responded { headers: &'a http::HeaderMap },
    /// The response has come in, with its whole body.
    Collected { response: ProxyResponse },
    /// The plugin at this place of the stack is through with the response.
    ResponsePassed { plugin: usize, back: Result<ProxyResponse, PluginError> },
}

/// What to do next about a request that is being forwarded.
#[derive(Debug)]
pub enum ForwardAction {
    /// Hand the request to the plugin at this place of the stack.
    PassRequest { plugin: usize, request: ProxyRequest },
    /// Send the request to the upstream.
    Send { request: ProxyRequest },
    /// Answer with the response of the upstream, part by part as it comes in.
    Stream,
    /// Wait for the whole response of the upstream.
    Collect,
    /// Hand the response to the plugin at this place of the stack.
    PassResponse { plugin: usize, response: ProxyResponse },
    /// Answer with the response.
    Reply { response: ProxyResponse },
    /// Give up.
    Fail { error: ProxyError },
}

/// The content of a [`ForwardEvent`].
#[verifier::ext_equal]
pub enum ForwardEventView {
    Received { request: crate::message::RequestView },
    Broken { message: Seq<char> },
    RequestPassed {
        plugin: usize,
        onward: Result<crate::message::RequestView, crate::plugins::PluginErrorView>,
    },
    Responded { headers: Map<Seq<char>, Seq<Seq<u8>>> },
    Collected { response: crate::message::ResponseView },
    ResponsePassed {
        plugin: usize,
        back: Result<crate::message::ResponseView, crate::plugins::PluginErrorView>,
    },
}

/// The content of a [`ForwardAction`].
#[verifier::ext_equal]
pub enum ForwardActionView {
    PassRequest { plugin: usize, request: crate::message::RequestView },
    Send { request: crate::message::RequestView },
    Stream,
    Collect,
    PassResponse { plugin: usize, response: crate::message::ResponseView },
    Reply { response: crate::message::ResponseView },
    Fail { error: crate::http_proxy::ProxyErrorView },
}

impl<'a> DeepView for ForwardEvent<'a> {
    type V = ForwardEventView;

    open spec fn deep_view(&self) -> ForwardEventView {
        match *self {
            ForwardEvent::Received { request } => ForwardEventView::Received {
                request: request.deep_view(),
            },
            ForwardEvent::Broken { message } => ForwardEventView::Broken { message: message@ },
            ForwardEvent::RequestPassed { plugin, onward } => ForwardEventView::RequestPassed {
                plugin,
                onward: crate::views::outcome(onward),
            },
            ForwardEvent::Responded { headers: held } => ForwardEventView::Responded {
                headers: headers::contents(*held),
            },
            ForwardEvent::Collected { response } => ForwardEventView::Collected {
                response: response.deep_view(),
            },
            ForwardEvent::ResponsePassed { plugin, back } => ForwardEventView::ResponsePassed {
                plugin,
                back: crate::views::outcome(back),
            },
        }
    }
}

impl DeepView for ForwardAction {
    type V = ForwardActionView;

    open spec fn deep_view(&self) -> ForwardActionView {
        match *self {
            ForwardAction::PassRequest { plugin, request } => ForwardActionView::PassRequest {
                plugin,
                request: request.deep_view(),
            },
            ForwardAction::Send { request } => ForwardActionView::Send {
                request: request.deep_view(),
            },
            ForwardAction::Stream => ForwardActionView::Stream,
            ForwardAction::Collect => ForwardActionView::Collect,
            ForwardAction::PassResponse { plugin, response } => ForwardActionView::PassResponse {
                plugin,
                response: response.deep_view(),
            },
            ForwardAction::Reply { response } => ForwardActionView::Reply {
                response: response.deep_view(),
            },
            ForwardAction::Fail { error } => ForwardActionView::Fail { error: error.deep_view() },
        }
    }
}

/// What the turn of a request means for its forwarding.
pub open spec fn after_request_turn(
    turn: Turn<crate::message::RequestView, crate::plugins::PluginErrorView>,
) -> ForwardActionView {
    match turn {
        Turn::Call { plugin, message } => ForwardActionView::PassRequest {
            plugin,
            request: message,
        },
        Turn::Finished { outcome: Ok(request) } => ForwardActionView::Send { request },
        Turn::Finished { outcome: Err(error) } => ForwardActionView::Fail {
            error: http_proxy::ProxyErrorView::Plugin { error },
        },
    }
}

/// What the turn of a response means for its forwarding.
pub open spec fn after_response_turn(
    turn: Turn<crate::message::ResponseView, crate::plugins::PluginErrorView>,
) -> ForwardActionView {
    match turn {
        Turn::Call { plugin, message } => ForwardActionView::PassResponse {
            plugin,
            response: message,
        },
        Turn::Finished { outcome: Ok(response) } => ForwardActionView::Reply { response },
        Turn::Finished { outcome: Err(error) } => ForwardActionView::Fail {
            error: http_proxy::ProxyErrorView::Plugin { error },
        },
    }
}

/// What to do with a request that has been normalized, before `count` plugins.
pub open spec fn after_normalizing(
    count: nat,
    outcome: Result<crate::message::RequestView, crate::http_proxy::ProxyErrorView>,
) -> ForwardActionView {
    match outcome {
        Ok(request) => after_request_turn(plugins::request_turn(count, 0, Ok(request))),
        Err(error) => ForwardActionView::Fail { error },
    }
}

/// What to do after `event`, with `count` plugins, of which some want whole responses if
/// `buffered` says so.
pub open spec fn forward_step(
    count: nat,
    buffered: bool,
    event: ForwardEventView,
) -> ForwardActionView {
    match event {
        ForwardEventView::Received { request } => after_normalizing(
            count,
            target::normalized(request),
        ),
        ForwardEventView::Broken { message } => ForwardActionView::Fail {
            error: http_proxy::ProxyErrorView::Transport { message },
        },
        ForwardEventView::RequestPassed { plugin, onward } => after_request_turn(
            plugins::request_turn(count, (plugin + 1) as nat, onward),
        ),
        ForwardEventView::Responded { headers: held } => if buffered
            && !http_proxy::is_event_stream(held) {
            ForwardActionView::Collect
        } else {
            ForwardActionView::Stream
        },
        ForwardEventView::Collected { response } => after_response_turn(
            plugins::response_turn(count, 0, Ok(response)),
        ),
        ForwardEventView::ResponsePassed { plugin, back } => after_response_turn(
            plugins::response_turn(count, (count - plugin) as nat, back),
        ),
    }
}

/// Whether `event` speaks only of plugins that are there, `count` of them.
pub open spec fn is_possible(count: nat, event: ForwardEventView) -> bool {
    match event {
        ForwardEventView::RequestPassed { plugin, .. } => plugin < count,
        ForwardEventView::ResponsePassed { plugin, .. } => plugin < count,
        _ => true,
    }
}

/// Whether `action` may follow `event`: it is what [`forward_step`] says, or the refusal of a
/// Host header in a request of very many headers.
pub open spec fn may_follow<P: TrafficPlugin + ?Sized>(
    stack: Seq<Box<P>>,
    event: ForwardEventView,
    action: ForwardActionView,
) -> bool {
    match event {
        ForwardEventView::Received { request } => exists|outcome| #[trigger]
            target::meets(outcome, target::normalized(request), request) && action
                == after_normalizing(stack.len(), outcome),
        ForwardEventView::Responded { .. } => exists|buffered: bool| #[trigger]
            plugins::tells_buffering(stack, buffered) && action == forward_step(
                stack.len(),
                buffered,
                event,
            ),
        _ => action == forward_step(stack.len(), true, event) && action == forward_step(
            stack.len(),
            false,
            event,
        ),
    }
}

fn take_request_turn(turn: Turn<ProxyRequest, PluginError>) -> (action: ForwardAction)
    ensures
        action.deep_view() == after_request_turn(
            match turn {
                Turn::Call { plugin, message } => Turn::Call {
                    plugin,
                    message: message.deep_view(),
                },
                Turn::Finished { outcome } => Turn::Finished {
                    outcome: crate::views::outcome(outcome),
                },
            },
        ),
{
    match turn {
        Turn::Call { plugin, message } => ForwardAction::PassRequest { plugin, request: message },
        Turn::Finished { outcome } => match outcome {
            Ok(request) => ForwardAction::Send { request },
            Err(error) => ForwardAction::Fail { error: ProxyError::Plugin { error } },
        },
    }
}

fn take_response_turn(turn: Turn<ProxyResponse, PluginError>) -> (action: ForwardAction)
    ensures
        action.deep_view() == after_response_turn(
            match turn {
                Turn::Call { plugin, message } => Turn::Call {
                    plugin,
                    message: message.deep_view(),
                },
                Turn::Finished { outcome } => Turn::Finished {
                    outcome: crate::views::outcome(outcome),
                },
            },
        ),
{
    match turn {
        Turn::Call { plugin, message } => ForwardAction::PassResponse { plugin, response: message },
        Turn::Finished { outcome } => match outcome {
            Ok(response) => ForwardAction::Reply { response },
            Err(error) => ForwardAction::Fail { error: ProxyError::Plugin { error } },
        },
    }
}

/// What to do after `event`: the request is normalized, passes the plugins and is sent; the
/// response is streamed, unless a plugin wants it whole and it is no stream of events: then it is
/// collected and passes the plugins in the opposite order.
pub fn forward<P: TrafficPlugin + ?Sized>(stack: &[Box<P>], event: ForwardEvent<'_>) -> (action:
    ForwardAction)
    requires
        is_possible(stack@.len(), event.deep_view()),
    ensures
        may_follow(stack@, event.deep_view(), action.deep_view()),
{
    match event {
        ForwardEvent::Received { request } => {
            let ghost came = request.deep_view();
            let outcome = normalize_request(request);
            assert(target::meets(
                crate::views::outcome(outcome),
                target::normalized(came),
                came,
            ));
            match outcome {
                Ok(request) => take_request_turn(
                    apply_request_plugins(stack.len(), 0, Ok(request)),
                ),
                Err(error) => ForwardAction::Fail { error },
            }
        },
        ForwardEvent::Broken { message } => ForwardAction::Fail {
            error: ProxyError::Transport { message },
        },
        ForwardEvent::RequestPassed { plugin, onward } => take_request_turn(
            apply_request_plugins(stack.len(), plugin + 1, onward),
        ),
        ForwardEvent::Responded { headers: held } => if has_buffered_response_plugins(stack)
            && !is_sse_response(held) {
            ForwardAction::Collect
        } else {
            ForwardAction::Stream
        },
        ForwardEvent::Collected { response } => take_response_turn(
            apply_response_plugins(stack.len(), 0, Ok(response)),
        ),
        ForwardEvent::ResponsePassed { plugin, back } => take_response_turn(
            apply_response_plugins(stack.len(), stack.len() - plugin, back),
        ),
    }
}

/// The response of an upstream: the headers in its head, and what comes of waiting for the rest.
#[verifier::ext_equal]
pub struct UpstreamView {
    pub headers: Map<Seq<char>, Seq<Seq<u8>>>,
    pub collected: Result<crate::message::ResponseView, Seq<char>>,
}

/// How the plugins of a stack and the upstream behave.
pub struct Surroundings {
    pub on_request: Seq<
        spec_fn(crate::message::RequestView) -> Result<
            crate::message::RequestView,
            crate::plugins::PluginErrorView,
        >,
    >,
    pub on_response: Seq<
        spec_fn(crate::message::ResponseView) -> Result<
            crate::message::ResponseView,
            crate::plugins::PluginErrorView,
        >,
    >,
    pub buffered: bool,
    pub upstream: spec_fn(crate::message::RequestView) -> Result<UpstreamView, Seq<char>>,
}

impl Surroundings {
    /// The number of plugins.
    pub open spec fn count(self) -> nat {
        self.on_request.len()
    }

    /// Whether each plugin has both its halves, and a place in a stack.
    pub open spec fn is_stack(self) -> bool {
        self.on_response.len() == self.on_request.len() <= usize::MAX
    }
}

/// What a request comes to.
#[verifier::ext_equal]
pub enum Ending {
    /// The response of the upstream is streamed.
    Streamed { upstream: UpstreamView },
    /// The client is answered with this response.
    Replied { response: crate::message::ResponseView },
    /// The forwarding failed.
    Failed { error: crate::http_proxy::ProxyErrorView },
}

/// How far off the end is at `event`, with `count` plugins.
pub open spec fn distance(count: nat, event: ForwardEventView) -> int {
    let count = count as int;
    match event {
        ForwardEventView::Received { .. } => 2 * count + 5,
        ForwardEventView::RequestPassed { plugin, .. } => 2 * count + 4 - plugin,
        ForwardEventView::Responded { .. } => count + 3,
        ForwardEventView::Collected { .. } => count + 2,
        ForwardEventView::ResponsePassed { plugin, .. } => plugin + 1,
        ForwardEventView::Broken { .. } => 0,
    }
}

/// What a request comes to from `event` on, where every action is carried out in `around`;
/// `latest` is the latest response of the upstream.
pub open spec fn forward_run(
    around: Surroundings,
    event: ForwardEventView,
    latest: UpstreamView,
) -> Ending
    decreases distance(around.count(), event),
    when around.is_stack() && is_possible(around.count(), event)
{
    match forward_step(around.count(), around.buffered, event) {
        ForwardActionView::PassRequest { plugin, request } => forward_run(
            around,
            ForwardEventView::RequestPassed {
                plugin,
                onward: around.on_request[plugin as int](request),
            },
            latest,
        ),
        ForwardActionView::Send { request } => match (around.upstream)(request) {
            Ok(upstream) => forward_run(
                around,
                ForwardEventView::Responded { headers: upstream.headers },
                upstream,
            ),
            Err(message) => forward_run(around, ForwardEventView::Broken { message }, latest),
        },
        ForwardActionView::Stream => Ending::Streamed { upstream: latest },
        ForwardActionView::Collect => match latest.collected {
            Ok(response) => forward_run(around, ForwardEventView::Collected { response }, latest),
            Err(message) => forward_run(around, ForwardEventView::Broken { message }, latest),
        },
        ForwardActionView::PassResponse { plugin, response } => forward_run(
            around,
            ForwardEventView::ResponsePassed {
                plugin,
                back: around.on_response[plugin as int](response),
            },
            latest,
        ),
        ForwardActionView::Reply { response } => Ending::Replied { response },
        ForwardActionView::Fail { error } => Ending::Failed { error },
    }
}

/// What a response that came in whole comes to.
pub open spec fn ending_of_response(
    outcome: Result<crate::message::ResponseView, crate::plugins::PluginErrorView>,
) -> Ending {
    match outcome {
        Ok(response) => Ending::Replied { response },
        Err(error) => Ending::Failed { error: http_proxy::ProxyErrorView::Plugin { error } },
    }
}

/// What the response of the upstream comes to.
pub open spec fn ending_of_upstream(around: Surroundings, upstream: UpstreamView) -> Ending {
    if around.buffered && !http_proxy::is_event_stream(upstream.headers) {
        match upstream.collected {
            Ok(response) => ending_of_response(
                plugins::chained(around.on_response.reverse(), response),
            ),
            Err(message) => Ending::Failed {
                error: http_proxy::ProxyErrorView::Transport { message },
            },
        }
    } else {
        Ending::Streamed { upstream }
    }
}

/// What a request that passed the plugins comes to.
pub open spec fn ending_of_request(
    around: Surroundings,
    outcome: Result<crate::message::RequestView, crate::plugins::PluginErrorView>,
) -> Ending {
    match outcome {
        Ok(request) => match (around.upstream)(request) {
            Ok(upstream) => ending_of_upstream(around, upstream),
            Err(message) => Ending::Failed {
                error: http_proxy::ProxyErrorView::Transport { message },
            },
        },
        Err(error) => Ending::Failed { error: http_proxy::ProxyErrorView::Plugin { error } },
    }
}

proof fn response_runs_through(
    around: Surroundings,
    plugin: usize,
    response: crate::message::ResponseView,
    latest: UpstreamView,
)
    requires
        around.is_stack(),
        plugin < around.count(),
    ensures
        forward_run(
            around,
            ForwardEventView::ResponsePassed { plugin, back: Ok(response) },
            latest,
        ) == ending_of_response(
            plugins::chained(around.on_response.reverse().skip(around.count() - plugin), response),
        ),
    decreases plugin,
{
    reveal_with_fuel(forward_run, 3);
    let rest = around.on_response.reverse().skip(around.count() - plugin);
    if plugin > 0 {
        let next = (plugin - 1) as usize;
        assert(rest.first() == around.on_response[next as int]);
        assert(rest.drop_first() == around.on_response.reverse().skip(around.count() - next));
        match around.on_response[next as int](response) {
            Ok(response) => response_runs_through(around, next, response, latest),
            Err(error) => {},
        }
    }
}

proof fn upstream_runs_through(around: Surroundings, upstream: UpstreamView)
    requires
        around.is_stack(),
    ensures
        forward_run(
            around,
            ForwardEventView::Responded { headers: upstream.headers },
            upstream,
        ) == ending_of_upstream(around, upstream),
{
    reveal_with_fuel(forward_run, 4);
    if around.buffered && !http_proxy::is_event_stream(upstream.headers) {
        if let Ok(response) = upstream.collected {
            let all = around.on_response.reverse();
            if around.count() > 0 {
                let last = (around.count() - 1) as usize;
                assert(all.first() == around.on_response[last as int]);
                assert(all.drop_first() == all.skip(around.count() - last));
                match around.on_response[last as int](response) {
                    Ok(response) => response_runs_through(around, last, response, upstream),
                    Err(error) => {},
                }
            }
        }
    }
}

proof fn request_runs_through(
    around: Surroundings,
    plugin: usize,
    request: crate::message::RequestView,
    latest: UpstreamView,
)
    requires
        around.is_stack(),
        plugin < around.count(),
    ensures
        forward_run(
            around,
            ForwardEventView::RequestPassed { plugin, onward: Ok(request) },
            latest,
        ) == ending_of_request(
            around,
            plugins::chained(around.on_request.skip(plugin + 1), request),
        ),
    decreases around.count() - plugin,
{
    reveal_with_fuel(forward_run, 3);
    let rest = around.on_request.skip(plugin + 1);
    if plugin + 1 < around.count() {
        let next = (plugin + 1) as usize;
        assert(rest.first() == around.on_request[next as int]);
        assert(rest.drop_first() == around.on_request.skip(next + 1));
        match around.on_request[next as int](request) {
            Ok(request) => request_runs_through(around, next, request, latest),
            Err(error) => {},
        }
    } else if let Ok(upstream) = (around.upstream)(request) {
        upstream_runs_through(around, upstream);
    }
}

/// A request is normalized, passes every plugin in order, and is sent as the last one left it.
/// The response passes every plugin in the opposite order, where a plugin wants it whole and it is
/// no stream of events, and is streamed untouched otherwise. Whatever fails first is the end.
pub proof fn forwarding_goes_there_and_back(
    around: Surroundings,
    request: crate::message::RequestView,
    latest: UpstreamView,
)
    requires
        around.is_stack(),
    ensures
        forward_run(around, ForwardEventView::Received { request }, latest) == (
        match target::normalized(request) {
            Ok(request) => ending_of_request(around, plugins::chained(around.on_request, request)),
            Err(error) => Ending::Failed { error },
        }),
{
    reveal_with_fuel(forward_run, 4);
    if let Ok(request) = target::normalized(request) {
        if around.count() > 0 {
            assert(around.on_request.drop_first() == around.on_request.skip(1));
            match around.on_request[0](request) {
                Ok(request) => request_runs_through(around, 0, request, latest),
                Err(error) => {},
            }
        } else if let Ok(upstream) = (around.upstream)(request) {
            upstream_runs_through(around, upstream);
        }
    }
}

/// A stream of events is streamed, whatever the plugins are.
pub proof fn events_are_streamed(
    count: nat,
    buffered: bool,
    held: Map<Seq<char>, Seq<Seq<u8>>>,
)
    requires
        http_proxy::is_event_stream(held),
    ensures
        forward_step(count, buffered, ForwardEventView::Responded { headers: held })
            == ForwardActionView::Stream,
{
}

/// Without a plugin that wants whole responses every response is streamed.
pub proof fn responses_are_streamed_by_default(count: nat, held: Map<Seq<char>, Seq<Seq<u8>>>)
    ensures
        forward_step(count, false, ForwardEventView::Responded { headers: held })
            == ForwardActionView::Stream,
{
}

/// A response that came in whole is handed as it is to the last plugin, and to the client where
/// there are no plugins.
pub proof fn collected_responses_meet_the_last_plugin<P: TrafficPlugin + ?Sized>(
    stack: Seq<Box<P>>,
    response: crate::message::ResponseView,
    action: ForwardActionView,
)
    requires
        stack.len() <= usize::MAX,
        may_follow(stack, ForwardEventView::Collected { response }, action),
    ensures
        stack.len() > 0 ==> (action matches ForwardActionView::PassResponse {
            plugin,
            response: handed,
        } && plugin == stack.len() - 1 && handed == response),
        stack.len() == 0 ==> action == (ForwardActionView::Reply { response }),
{
}

/// A response that a plugin let pass is handed, as the plugin left it, to the plugin before, and to
/// the client after the first plugin. The failure of a plugin is the failure of the forwarding.
pub proof fn responses_go_down_the_stack<P: TrafficPlugin + ?Sized>(
    stack: Seq<Box<P>>,
    plugin: usize,
    back: Result<crate::message::ResponseView, crate::plugins::PluginErrorView>,
    action: ForwardActionView,
)
    requires
        plugin < stack.len() <= usize::MAX,
        may_follow(stack, ForwardEventView::ResponsePassed { plugin, back }, action),
    ensures
        back matches Ok(response) ==> plugin > 0 ==> (action matches
            ForwardActionView::PassResponse { plugin: next, response: handed } && next == plugin - 1
            && handed == response),
        back matches Ok(response) ==> plugin == 0 ==> action == (ForwardActionView::Reply {
            response,
        }),
        back matches Err(error) ==> action == (ForwardActionView::Fail {
            error: http_proxy::ProxyErrorView::Plugin { error },
        }),
{
}

/// A request that a plugin let pass is handed, as the plugin left it, to the plugin behind, and to
/// the upstream after the last plugin. The failure of a plugin is the failure of the forwarding.
pub proof fn requests_go_up_the_stack<P: TrafficPlugin + ?Sized>(
    stack: Seq<Box<P>>,
    plugin: usize,
    onward: Result<crate::message::RequestView, crate::plugins::PluginErrorView>,
    action: ForwardActionView,
)
    requires
        plugin < stack.len() <= usize::MAX,
        may_follow(stack, ForwardEventView::RequestPassed { plugin, onward }, action),
    ensures
        onward matches Ok(request) ==> plugin < stack.len() - 1 ==> (action matches
            ForwardActionView::PassRequest { plugin: next, request: handed } && next == plugin + 1
            && handed == request),
        onward matches Ok(request) ==> plugin == stack.len() - 1 ==> action == (
        ForwardActionView::Send { request }),
        onward matches Err(error) ==> action == (ForwardActionView::Fail {
            error: http_proxy::ProxyErrorView::Plugin { error },
        }),
{
}

/// What is normalized goes to the first plugin, and to the upstream where there are no plugins.
/// What cannot be normalized is not sent anywhere.
pub proof fn received_requests_are_normalized_first<P: TrafficPlugin + ?Sized>(
    stack: Seq<Box<P>>,
    request: crate::message::RequestView,
    action: ForwardActionView,
)
    requires
        stack.len() <= usize::MAX,
        may_follow(stack, ForwardEventView::Received { request }, action),
    ensures
        action matches ForwardActionView::Fail { error } ==> target::meets(
            Err(error),
            target::normalized(request),
            request,
        ),
        action !is Fail && stack.len() > 0 ==> (action matches ForwardActionView::PassRequest {
            plugin: 0,
            request: handed,
        } && target::meets(Ok(handed), target::normalized(request), request)),
        action !is Fail && stack.len() == 0 ==> (action matches ForwardActionView::Send {
            request: handed,
        } && target::meets(Ok(handed), target::normalized(request), request)),
{
}

/// What cannot be done is told, in the words in which it was reported.
pub proof fn broken_transport_fails<P: TrafficPlugin + ?Sized>(
    stack: Seq<Box<P>>,
    message: Seq<char>,
    action: ForwardActionView,
)
    requires
        may_follow(stack, ForwardEventView::Broken { message }, action),
    ensures
        action == (ForwardActionView::Fail {
            error: http_proxy::ProxyErrorView::Transport { message },
        }),
{
}

/// The response of the upstream is collected if and only if some plugin has a command for responses
/// and the response is no stream of events, and is streamed otherwise.
pub proof fn responses_are_collected_for_commands(
    stack: Seq<Box<crate::plugins::command_rewrite::CommandRewritePlugin>>,
    held: Map<Seq<char>, Seq<Seq<u8>>>,
    action: ForwardActionView,
)
    requires
        may_follow(stack, ForwardEventView::Responded { headers: held }, action),
    ensures
        action is Collect || action is Stream,
        action is Collect <==> !http_proxy::is_event_stream(held) && exists|i: int|
            0 <= i < stack.len() && (#[trigger] stack[i]).deep_view().response is Some,
{
    let buffered = choose|buffered: bool| #[trigger]
        plugins::tells_buffering(stack, buffered) && action == forward_step(
            stack.len(),
            buffered,
            ForwardEventView::Responded { headers: held },
        );
    if buffered {
        let i = choose|i: int|
            0 <= i < stack.len() && plugins::may_answer(&*#[trigger] stack[i], true);
        assert(stack[i].deep_view().response is Some);
    } else {
        assert forall|i: int| 0 <= i < stack.len() implies (
        #[trigger] stack[i]).deep_view().response is None by {
            assert(plugins::may_answer(&*stack[i], false));
        }
    }
}

/// What a request comes to from `event` on, within `turns` turns, where `act` says what is done
/// after each event and every action is carried out in `around`.
pub open spec fn carried_out(
    act: spec_fn(ForwardEventView) -> ForwardActionView,
    around: Surroundings,
    event: ForwardEventView,
    latest: UpstreamView,
    turns: nat,
) -> Option<Ending>
    decreases turns,
{
    if turns == 0 {
        None
    } else {
        let left = (turns - 1) as nat;
        match act(event) {
            ForwardActionView::PassRequest { plugin, request } => carried_out(
                act,
                around,
                ForwardEventView::RequestPassed {
                    plugin,
                    onward: around.on_request[plugin as int](request),
                },
                latest,
                left,
            ),
            ForwardActionView::Send { request } => match (around.upstream)(request) {
                Ok(upstream) => carried_out(
                    act,
                    around,
                    ForwardEventView::Responded { headers: upstream.headers },
                    upstream,
                    left,
                ),
                Err(message) => carried_out(
                    act,
                    around,
                    ForwardEventView::Broken { message },
                    latest,
                    left,
                ),
            },
            ForwardActionView::Stream => Some(Ending::Streamed { upstream: latest }),
            ForwardActionView::Collect => match latest.collected {
                Ok(response) => carried_out(
                    act,
                    around,
                    ForwardEventView::Collected { response },
                    latest,
                    left,
                ),
                Err(message) => carried_out(
                    act,
                    around,
                    ForwardEventView::Broken { message },
                    latest,
                    left,
                ),
            },
            ForwardActionView::PassResponse { plugin, response } => carried_out(
                act,
                around,
                ForwardEventView::ResponsePassed {
                    plugin,
                    back: around.on_response[plugin as int](response),
                },
                latest,
                left,
            ),
            ForwardActionView::Reply { response } => Some(Ending::Replied { response }),
            ForwardActionView::Fail { error } => Some(Ending::Failed { error }),
        }
    }
}

/// Whether `act` acts as [`forward`] may, on a stack of plugins that behave as `around` says.
pub open spec fn acts_as_forward<P: TrafficPlugin + ?Sized>(
    stack: Seq<Box<P>>,
    around: Surroundings,
    act: spec_fn(ForwardEventView) -> ForwardActionView,
) -> bool {
    &&& around.is_stack()
    &&& stack.len() == around.count()
    &&& forall|buffered: bool| #[trigger]
        plugins::tells_buffering(stack, buffered) ==> buffered == around.buffered
    &&& forall|event: ForwardEventView| #[trigger]
        is_possible(stack.len(), event) ==> may_follow(stack, event, act(event))
}

proof fn carried_out_as_run<P: TrafficPlugin + ?Sized>(
    stack: Seq<Box<P>>,
    around: Surroundings,
    act: spec_fn(ForwardEventView) -> ForwardActionView,
    event: ForwardEventView,
    latest: UpstreamView,
    turns: nat,
)
    requires
        acts_as_forward(stack, around, act),
        is_possible(stack.len(), event),
        event matches ForwardEventView::Received { request } ==> request.headers.dom().len()
            < headers::roomy_names(),
        turns > distance(around.count(), event),
    ensures
        carried_out(act, around, event, latest, turns) == Some(forward_run(around, event, latest)),
    decreases turns,
{
    reveal_with_fuel(carried_out, 2);
    reveal_with_fuel(forward_run, 2);
    let action = act(event);
    let left = (turns - 1) as nat;
    assert(may_follow(stack, event, action));
    assert(action == forward_step(around.count(), around.buffered, event));
    match action {
        ForwardActionView::PassRequest { plugin, request } => {
            let next = ForwardEventView::RequestPassed {
                plugin,
                onward: around.on_request[plugin as int](request),
            };
            carried_out_as_run(stack, around, act, next, latest, left);
        },
        ForwardActionView::Send { request } => match (around.upstream)(request) {
            Ok(upstream) => carried_out_as_run(
                stack,
                around,
                act,
                ForwardEventView::Responded { headers: upstream.headers },
                upstream,
                left,
            ),
            Err(message) => carried_out_as_run(
                stack,
                around,
                act,
                ForwardEventView::Broken { message },
                latest,
                left,
            ),
        },
        ForwardActionView::Collect => match latest.collected {
            Ok(response) => carried_out_as_run(
                stack,
                around,
                act,
                ForwardEventView::Collected { response },
                latest,
                left,
            ),
            Err(message) => carried_out_as_run(
                stack,
                around,
                act,
                ForwardEventView::Broken { message },
                latest,
                left,
            ),
        },
        ForwardActionView::PassResponse { plugin, response } => {
            let next = ForwardEventView::ResponsePassed {
                plugin,
                back: around.on_response[plugin as int](response),
            };
            carried_out_as_run(stack, around, act, next, latest, left);
        },
        _ => {},
    }
}

/// Whoever acts as [`forward`] says brings every request there and back: through every plugin in
/// order to the upstream, and the response streamed, or through every plugin in the opposite order.
pub proof fn forward_goes_there_and_back<P: TrafficPlugin + ?Sized>(
    stack: Seq<Box<P>>,
    around: Surroundings,
    act: spec_fn(ForwardEventView) -> ForwardActionView,
    request: crate::message::RequestView,
    latest: UpstreamView,
    turns: nat,
)
    requires
        acts_as_forward(stack, around, act),
        request.headers.dom().len() < headers::roomy_names(),
        turns > 2 * stack.len() + 5,
    ensures
        carried_out(act, around, ForwardEventView::Received { request }, latest, turns) == Some(
            match target::normalized(request) {
                Ok(request) => match plugins::chained(around.on_request, request) {
                    Ok(sent) => match (around.upstream)(sent) {
                        Ok(upstream) => if !around.buffered || http_proxy::is_event_stream(
                            upstream.headers,
                        ) {
                            Ending::Streamed { upstream }
                        } else {
                            match upstream.collected {
                                Ok(response) => match plugins::chained(
                                    around.on_response.reverse(),
                                    response,
                                ) {
                                    Ok(response) => Ending::Replied { response },
                                    Err(error) => Ending::Failed {
                                        error: http_proxy::ProxyErrorView::Plugin { error },
                                    },
                                },
                                Err(message) => Ending::Failed {
                                    error: http_proxy::ProxyErrorView::Transport { message },
                                },
                            }
                        },
                        Err(message) => Ending::Failed {
                            error: http_proxy::ProxyErrorView::Transport { message },
                        },
                    },
                    Err(error) => Ending::Failed {
                        error: http_proxy::ProxyErrorView::Plugin { error },
                    },
                },
                Err(error) => Ending::Failed { error },
            },
        ),
{
    carried_out_as_run(
        stack,
        around,
        act,
        ForwardEventView::Received { request },
        latest,
        turns,
    );
    forwarding_goes_there_and_back(around, request, latest);
}

} // verus!
