//! Traffic plugins and the order in which they run.

use vstd::prelude::*;
use vstd::string::StringExecFns;

use crate::config::{ConfigError, PluginConfig};
use command_rewrite::CommandRewritePlugin;

pub mod command;
pub mod command_headers;
pub mod command_rewrite;

verus! {

/// Why a plugin could not do its work.
#[derive(Debug)]
pub enum PluginError {
    Failed { plugin: &'static str, message: String },
}

/// The content of a [`PluginError`].
#[verifier::ext_equal]
pub enum PluginErrorView {
    Failed { plugin: Seq<char>, message: Seq<char> },
}

impl DeepView for PluginError {
    type V = PluginErrorView;

    open spec fn deep_view(&self) -> PluginErrorView {
        match *self {
            PluginError::Failed { plugin, message } => PluginErrorView::Failed {
                plugin: plugin@,
                message: message@,
            },
        }
    }
}

impl PluginErrorView {
    /// The text of the error.
    pub open spec fn text(self) -> Seq<char> {
        match self {
            PluginErrorView::Failed { plugin, message } => "plugin "@ + plugin + " failed: "@
                + message,
        }
    }
}

impl PluginError {
    /// The text of the error.
    pub fn to_text(&self) -> (r: String)
        ensures
            r@ == self.deep_view().text(),
    {
        match self {
            PluginError::Failed { plugin, message } => {
                let mut out = crate::text::join3("plugin ", plugin, " failed: ");
                out.append(message.as_str());
                out
            },
        }
    }
}

/// A plugin that may rewrite the traffic.
pub trait TrafficPlugin {
    /// The name of the plugin.
    fn name(&self) -> &'static str;

    /// Whether responses have to be collected whole, so that the plugin can rewrite them.
    fn requires_buffered_response(&self) -> (required: bool)
        default_ensures
            !required,
    {
        false
    }
}

/// The plugins of a proxy, in the order of the configuration.
pub type PluginStack = Vec<Box<CommandRewritePlugin>>;

/// Whether `plugin` may answer `required` when asked if it needs whole responses.
pub open spec fn may_answer<P: TrafficPlugin + ?Sized>(plugin: &P, required: bool) -> bool {
    call_ensures(P::requires_buffered_response, (plugin,), required)
}

/// Whether `r` tells if some plugin needs whole responses.
pub open spec fn tells_buffering<P: TrafficPlugin + ?Sized>(plugins: Seq<Box<P>>, r: bool) -> bool {
    if r {
        exists|i: int| 0 <= i < plugins.len() && may_answer(&*#[trigger] plugins[i], true)
    } else {
        forall|i: int| 0 <= i < plugins.len() ==> may_answer(&*#[trigger] plugins[i], false)
    }
}

/// Whether some plugin needs whole responses.
pub fn has_buffered_response_plugins<P: TrafficPlugin + ?Sized>(plugins: &[Box<P>]) -> (r: bool)
    ensures
        tells_buffering(plugins@, r),
{
    let mut at: usize = 0;
    while at < plugins.len()
        invariant
            at <= plugins@.len(),
            forall|i: int| 0 <= i < at ==> may_answer(&*#[trigger] plugins@[i], false),
        decreases plugins@.len() - at,
    {
        if plugins[at].requires_buffered_response() {
            assert(may_answer(&*plugins@[at as int], true));
            return true;
        }
        at = at + 1;
    }
    false
}

/// What to do next with a message that passes through the plugins.
pub enum Turn<M, E> {
    /// Hand the message to the plugin at this place of the stack.
    Call { plugin: usize, message: M },
    /// The message is through, or a plugin has failed.
    Finished { outcome: Result<M, E> },
}

/// The turn of a request after `done` of `count` plugins, the last of which left `latest`.
pub open spec fn request_turn<M, E>(count: nat, done: nat, latest: Result<M, E>) -> Turn<M, E> {
    match latest {
        Ok(message) if done < count => Turn::Call { plugin: done as usize, message },
        _ => Turn::Finished { outcome: latest },
    }
}

/// The turn of a response after `done` of `count` plugins, the last of which left `latest`.
pub open spec fn response_turn<M, E>(count: nat, done: nat, latest: Result<M, E>) -> Turn<M, E> {
    match latest {
        Ok(message) if done < count => Turn::Call {
            plugin: (count - done - 1) as usize,
            message,
        },
        _ => Turn::Finished { outcome: latest },
    }
}

/// The next turn of a request: the plugins run in their order, until one fails.
///
/// `latest` is the request as it came, while `done` is zero, and then what the plugin that was
/// called last made of it.
pub fn apply_request_plugins<M>(
    count: usize,
    done: usize,
    latest: Result<M, PluginError>,
) -> (turn: Turn<M, PluginError>)
    ensures
        turn == request_turn(count as nat, done as nat, latest),
{
    match latest {
        Ok(message) => if done < count {
            Turn::Call { plugin: done, message }
        } else {
            Turn::Finished { outcome: Ok(message) }
        },
        Err(error) => Turn::Finished { outcome: Err(error) },
    }
}

/// The next turn of a response: the plugins run in the opposite order, until one fails.
///
/// `latest` is the response as it came, while `done` is zero, and then what the plugin that was
/// called last made of it.
pub fn apply_response_plugins<M>(
    count: usize,
    done: usize,
    latest: Result<M, PluginError>,
) -> (turn: Turn<M, PluginError>)
    ensures
        turn == response_turn(count as nat, done as nat, latest),
{
    match latest {
        Ok(message) => if done < count {
            Turn::Call { plugin: count - done - 1, message }
        } else {
            Turn::Finished { outcome: Ok(message) }
        },
        Err(error) => Turn::Finished { outcome: Err(error) },
    }
}

/// A message handed through `plugins` from the first to the last, until one fails.
pub open spec fn chained<M, E>(
    plugins: Seq<spec_fn(M) -> Result<M, E>>,
    message: M,
) -> Result<M, E>
    decreases plugins.len(),
{
    if plugins.len() == 0 {
        Ok(message)
    } else {
        match plugins.first()(message) {
            Ok(next) => chained(plugins.drop_first(), next),
            Err(error) => Err(error),
        }
    }
}

/// What becomes of a request when every turn is taken with `plugins`.
pub open spec fn request_run<M, E>(
    plugins: Seq<spec_fn(M) -> Result<M, E>>,
    done: nat,
    latest: Result<M, E>,
) -> Result<M, E>
    decreases plugins.len() - done,
{
    match request_turn(plugins.len(), done, latest) {
        Turn::Call { plugin, message } => if done < plugins.len() {
            request_run(plugins, done + 1, plugins[plugin as int](message))
        } else {
            latest
        },
        Turn::Finished { outcome } => outcome,
    }
}

/// What becomes of a response when every turn is taken with `plugins`.
pub open spec fn response_run<M, E>(
    plugins: Seq<spec_fn(M) -> Result<M, E>>,
    done: nat,
    latest: Result<M, E>,
) -> Result<M, E>
    decreases plugins.len() - done,
{
    match response_turn(plugins.len(), done, latest) {
        Turn::Call { plugin, message } => if done < plugins.len() {
            response_run(plugins, done + 1, plugins[plugin as int](message))
        } else {
            latest
        },
        Turn::Finished { outcome } => outcome,
    }
}

proof fn request_run_from<M, E>(
    plugins: Seq<spec_fn(M) -> Result<M, E>>,
    done: nat,
    message: M,
)
    requires
        done <= plugins.len() <= usize::MAX,
    ensures
        request_run(plugins, done, Ok(message)) == chained(plugins.skip(done as int), message),
    decreases plugins.len() - done,
{
    reveal_with_fuel(request_run, 2);
    if done < plugins.len() {
        let rest = plugins.skip(done as int);
        assert(rest.first() == plugins[done as int]);
        assert(rest.drop_first() == plugins.skip((done + 1) as int));
        match plugins[done as int](message) {
            Ok(next) => request_run_from(plugins, done + 1, next),
            Err(error) => {},
        }
    }
}

proof fn response_run_from<M, E>(
    plugins: Seq<spec_fn(M) -> Result<M, E>>,
    done: nat,
    message: M,
)
    requires
        done <= plugins.len() <= usize::MAX,
    ensures
        response_run(plugins, done, Ok(message)) == chained(
            plugins.reverse().skip(done as int),
            message,
        ),
    decreases plugins.len() - done,
{
    reveal_with_fuel(response_run, 2);
    if done < plugins.len() {
        let at = plugins.len() - done - 1;
        let rest = plugins.reverse().skip(done as int);
        assert(rest.first() == plugins[at]);
        assert(rest.drop_first() == plugins.reverse().skip((done + 1) as int));
        match plugins[at](message) {
            Ok(next) => response_run_from(plugins, done + 1, next),
            Err(error) => {},
        }
    }
}

/// A request passes the plugins in the order of the configuration, and the first failure ends it.
pub proof fn requests_pass_in_order<M, E>(
    plugins: Seq<spec_fn(M) -> Result<M, E>>,
    message: M,
)
    requires
        plugins.len() <= usize::MAX,
    ensures
        request_run(plugins, 0, Ok(message)) == chained(plugins, message),
{
    request_run_from(plugins, 0, message);
    assert(plugins.skip(0) == plugins);
}

/// A response passes the plugins in the opposite order, and the first failure ends it.
pub proof fn responses_pass_in_reverse<M, E>(
    plugins: Seq<spec_fn(M) -> Result<M, E>>,
    message: M,
)
    requires
        plugins.len() <= usize::MAX,
    ensures
        response_run(plugins, 0, Ok(message)) == chained(plugins.reverse(), message),
{
    response_run_from(plugins, 0, message);
    assert(plugins.reverse().skip(0) == plugins.reverse());
}

/// The commands of a plugin configuration.
pub open spec fn rewrite_config(
    config: crate::config::PluginConfigView,
) -> crate::config::CommandRewriteConfigView {
    match config {
        crate::config::PluginConfigView::CommandRewrite(config) => config,
    }
}

/// The commands of each plugin configuration.
pub open spec fn rewrite_configs(configs: Seq<crate::config::PluginConfigView>) -> Seq<
    crate::config::CommandRewriteConfigView,
> {
    Seq::new(configs.len(), |i: int| rewrite_config(configs[i]))
}

/// Why a stack of plugins cannot be built, if it cannot: what the first faulty one lacks.
pub open spec fn stack_fault(configs: Seq<crate::config::PluginConfigView>) -> Option<ConfigError>
    decreases configs.len(),
{
    if configs.len() == 0 {
        None
    } else if stack_fault(configs.drop_last()) is Some {
        stack_fault(configs.drop_last())
    } else {
        command_rewrite::rewrite_fault(rewrite_config(configs.last()))
    }
}

proof fn stack_fault_stays(configs: Seq<crate::config::PluginConfigView>, n: int)
    requires
        0 <= n <= configs.len(),
        stack_fault(configs.take(n)) is Some,
    ensures
        stack_fault(configs) == stack_fault(configs.take(n)),
    decreases configs.len(),
{
    if n == configs.len() {
        assert(configs.take(n) == configs);
    } else {
        assert(configs.drop_last().take(n) == configs.take(n));
        stack_fault_stays(configs.drop_last(), n);
    }
}

/// The plugins of a configuration, in its order, unless one of them cannot be built.
pub fn build_plugins(configs: &[PluginConfig]) -> (r: Result<PluginStack, ConfigError>)
    ensures
        crate::views::outcome(r) == (match stack_fault(configs.deep_view()) {
            Some(error) => Err(error),
            None => Ok(rewrite_configs(configs.deep_view())),
        }),
{
    let mut plugins: PluginStack = Vec::new();
    let ghost views = configs.deep_view();
    let mut at: usize = 0;
    assert(views.take(0) == Seq::<crate::config::PluginConfigView>::empty());
    while at < configs.len()
        invariant
            at <= configs@.len(),
            views == configs.deep_view(),
            plugins@.len() == at,
            forall|i: int|
                0 <= i < at ==> (#[trigger] plugins@[i]).deep_view() == rewrite_config(views[i]),
            stack_fault(views.take(at as int)) is None,
        decreases configs@.len() - at,
    {
        let ghost next = views.take(at + 1);
        assert(next.drop_last() == views.take(at as int));
        assert(next.last() == configs@[at as int].deep_view());
        match &configs[at] {
            PluginConfig::CommandRewrite(config) => match CommandRewritePlugin::try_new(
                config.clone(),
            ) {
                Ok(plugin) => plugins.push(Box::new(plugin)),
                Err(error) => {
                    proof {
                        stack_fault_stays(views, at + 1);
                    }
                    return Err(error);
                },
            },
        }
        at = at + 1;
    }
    assert(views.take(at as int) == views);
    assert(plugins.deep_view() =~= rewrite_configs(views));
    Ok(plugins)
}

/// A stack of plugins can be built if and only if each of them can.
pub proof fn stacks_are_built_plugin_by_plugin(configs: Seq<crate::config::PluginConfigView>)
    ensures
        stack_fault(configs) is None <==> forall|i: int|
            0 <= i < configs.len() ==> command_rewrite::rewrite_fault(
                rewrite_config(#[trigger] configs[i]),
            ) is None,
    decreases configs.len(),
{
    if configs.len() > 0 {
        let rest = configs.drop_last();
        stacks_are_built_plugin_by_plugin(rest);
        if stack_fault(rest) is Some {
            let i = choose|i: int|
                0 <= i < rest.len() && command_rewrite::rewrite_fault(
                    rewrite_config(#[trigger] rest[i]),
                ) is Some;
            assert(rest[i] == configs[i]);
        } else {
            assert forall|i: int| 0 <= i < rest.len() implies command_rewrite::rewrite_fault(
                rewrite_config(#[trigger] configs[i]),
            ) is None by {
                assert(rest[i] == configs[i]);
            }
        }
        assert(configs.last() == configs[configs.len() - 1]);
    }
}

/// Of the plugins that cannot be built the first is the one that is reported.
pub proof fn first_faulty_plugin_is_reported(configs: Seq<crate::config::PluginConfigView>, i: int)
    requires
        0 <= i < configs.len(),
        command_rewrite::rewrite_fault(rewrite_config(configs[i])) is Some,
        forall|j: int|
            0 <= j < i ==> command_rewrite::rewrite_fault(
                rewrite_config(#[trigger] configs[j]),
            ) is None,
    ensures
        stack_fault(configs) == command_rewrite::rewrite_fault(rewrite_config(configs[i])),
{
    let sound = configs.take(i);
    stacks_are_built_plugin_by_plugin(sound);
    assert forall|j: int| 0 <= j < sound.len() implies #[trigger] sound[j] == configs[j] by {}
    let faulty = configs.take(i + 1);
    assert(faulty.drop_last() == sound);
    assert(faulty.last() == configs[i]);
    stack_fault_stays(configs, i + 1);
}

/// Responses are collected whole if and only if the configuration has a command for responses.
pub proof fn buffering_follows_configuration(
    configs: Seq<crate::config::PluginConfigView>,
    plugins: PluginStack,
    r: bool,
)
    requires
        plugins.deep_view() == rewrite_configs(configs),
        tells_buffering(plugins@, r),
    ensures
        r <==> exists|i: int|
            0 <= i < configs.len() && rewrite_config(#[trigger] configs[i]).response is Some,
{
    assert(plugins.deep_view().len() == plugins@.len());
    assert forall|i: int| 0 <= i < plugins@.len() implies (#[trigger] plugins@[i]).deep_view()
        == rewrite_config(configs[i]) by {
        assert(plugins.deep_view()[i] == rewrite_configs(configs)[i]);
    }
    if r {
        let i = choose|i: int|
            0 <= i < plugins@.len() && may_answer(&*#[trigger] plugins@[i], true);
        assert(rewrite_config(configs[i]).response is Some);
    } else if exists|i: int|
        0 <= i < configs.len() && rewrite_config(#[trigger] configs[i]).response is Some {
        let i = choose|i: int|
            0 <= i < configs.len() && rewrite_config(#[trigger] configs[i]).response is Some;
        assert(may_answer(&*plugins@[i], false));
    }
}

/// The plugins of a stack have the commands of the configuration, each those at its own place.
pub proof fn stacks_keep_the_order(configs: Seq<crate::config::PluginConfigView>)
    ensures
        rewrite_configs(configs).len() == configs.len(),
        forall|i: int|
            0 <= i < configs.len() ==> #[trigger] configs[i]
                == crate::config::PluginConfigView::CommandRewrite(rewrite_configs(configs)[i]),
{
}

/// The text of a failure names the plugin and quotes the whole message.
pub proof fn failures_name_their_plugin(plugin: Seq<char>, message: Seq<char>)
    ensures
        ({
            let text = PluginErrorView::Failed { plugin, message }.text();
            let start = "plugin "@ + plugin + " failed: "@;
            text.len() == start.len() + message.len() && text.take(start.len() as int) == start
                && text.skip(start.len() as int) == message
        }),
{
    let text = PluginErrorView::Failed { plugin, message }.text();
    let start = "plugin "@ + plugin + " failed: "@;
    assert(text.take(start.len() as int) =~= start);
    assert(text.skip(start.len() as int) =~= message);
}

/// The turns of a request: the plugin after as many as are done, with what the last of them left;
/// and the end after all of them, or at the first failure.
pub proof fn request_turns_count_up<M, E>(count: nat, done: nat, latest: Result<M, E>)
    requires
        count <= usize::MAX,
    ensures
        latest matches Ok(message) ==> done < count ==> (request_turn(count, done, latest)
            matches Turn::Call { plugin, message: handed } && plugin == done && handed == message),
        latest is Err || done >= count ==> request_turn(count, done, latest) == (Turn::Finished {
            outcome: latest,
        }),
{
}

/// The turns of a response: the plugin before as many as are done, counted from the end, with what
/// the last of them left; and the end after all of them, or at the first failure.
pub proof fn response_turns_count_down<M, E>(count: nat, done: nat, latest: Result<M, E>)
    requires
        count <= usize::MAX,
    ensures
        latest matches Ok(message) ==> done < count ==> (response_turn(count, done, latest)
            matches Turn::Call { plugin, message: handed } && plugin + done + 1 == count && handed
            == message),
        latest is Err || done >= count ==> response_turn(count, done, latest) == (Turn::Finished {
            outcome: latest,
        }),
{
}

} // verus!
