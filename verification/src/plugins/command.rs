//! The commands that rewrite traffic, and the protocol that is spoken with them.

use vstd::prelude::*;

use crate::codec;
use crate::config::{CommandConfig, ConfigError};
use crate::plugins::PluginError;
use crate::text;
use crate::wire::WireHeaders;

verus! {

/// A command that may be run: its program has a name, and a run of it has some time.
#[derive(Debug)]
pub struct CommandRunner {
    program: String,
    args: Vec<String>,
    timeout_ms: u64,
}

impl DeepView for CommandRunner {
    type V = crate::config::CommandConfigView;

    closed spec fn deep_view(&self) -> crate::config::CommandConfigView {
        crate::config::CommandConfigView {
            program: self.program@,
            args: self.args.deep_view(),
            timeout_ms: self.timeout_ms,
        }
    }
}

/// Why a command cannot be run, if it cannot.
pub open spec fn command_fault(config: crate::config::CommandConfigView) -> Option<ConfigError> {
    if text::trimmed(config.program).len() == 0 {
        Some(ConfigError::EmptyProgram)
    } else if config.timeout_ms == 0 {
        Some(ConfigError::ZeroTimeout)
    } else {
        None
    }
}

impl CommandRunner {
    #[verifier::type_invariant]
    closed spec fn valid(&self) -> bool {
        command_fault(self.deep_view()) is None
    }

    /// The command of a configuration, unless its program is blank or it has no time.
    pub fn try_new(config: CommandConfig) -> (r: Result<Self, ConfigError>)
        ensures
            crate::views::outcome(r) == (match command_fault(config.deep_view()) {
                Some(error) => Err(error),
                None => Ok(config.deep_view()),
            }),
    {
        if text::trim(config.program.as_str()).as_str().is_empty() {
            return Err(ConfigError::EmptyProgram);
        }
        if config.timeout_ms == 0 {
            return Err(ConfigError::ZeroTimeout);
        }
        Ok(
            CommandRunner {
                program: config.program,
                args: config.args,
                timeout_ms: config.timeout_ms,
            },
        )
    }
}

impl Clone for CommandRunner {
    fn clone(&self) -> (r: Self)
        ensures
            r.deep_view() == self.deep_view(),
    {
        proof {
            use_type_invariant(self);
        }
        let args = self.args.clone();
        assert(args.deep_view() =~= self.args.deep_view());
        CommandRunner { program: self.program.clone(), args, timeout_ms: self.timeout_ms }
    }
}

/// A failure of this plugin.
pub open spec fn failure(message: Seq<char>) -> crate::plugins::PluginErrorView {
    crate::plugins::PluginErrorView::Failed { plugin: "command_rewrite"@, message }
}

/// A failure of this plugin.
pub fn failed(message: String) -> (r: PluginError)
    ensures
        r.deep_view() == failure(message@),
{
    PluginError::Failed { plugin: "command_rewrite", message }
}

/// The version of the protocol that is spoken with commands.
pub const PROTOCOL_VERSION: u8 = 1;

/// What a command is asked to rewrite.
#[derive(Debug, Clone, Copy, PartialEq, Eq, Structural)]
pub enum CommandPhase {
    Request,
    Response,
}

/// A request as a command gets it.
#[derive(Debug)]
pub struct CommandRequest {
    pub method: String,
    pub uri: String,
    pub headers: WireHeaders,
    pub body_base64: String,
}

/// A response as a command gets it.
#[derive(Debug)]
pub struct CommandResponse {
    pub status: u16,
    pub headers: WireHeaders,
    pub body_base64: String,
}

/// What a command gets.
#[derive(Debug)]
pub struct CommandInput {
    pub version: u8,
    pub phase: CommandPhase,
    pub request: Option<CommandRequest>,
    pub response: Option<CommandResponse>,
}

/// What a command changes in a request.
#[derive(Debug)]
pub struct CommandRequestPatch {
    pub method: Option<String>,
    pub uri: Option<String>,
    pub headers: Option<WireHeaders>,
    pub body_base64: Option<String>,
}

/// What a command changes in a response.
#[derive(Debug)]
pub struct CommandResponsePatch {
    pub status: Option<u16>,
    pub headers: Option<WireHeaders>,
    pub body_base64: Option<String>,
}

/// What a command answers.
#[derive(Debug)]
pub struct CommandOutput {
    pub version: Option<u8>,
    pub request: Option<CommandRequestPatch>,
    pub response: Option<CommandResponsePatch>,
}

/// The content of a [`CommandRequest`].
#[verifier::ext_equal]
pub struct CommandRequestView {
    pub method: Seq<char>,
    pub uri: Seq<char>,
    pub headers: Map<Seq<char>, Seq<Seq<char>>>,
    pub body_base64: Seq<char>,
}

/// The content of a [`CommandResponse`].
#[verifier::ext_equal]
pub struct CommandResponseView {
    pub status: u16,
    pub headers: Map<Seq<char>, Seq<Seq<char>>>,
    pub body_base64: Seq<char>,
}

/// The content of a [`CommandInput`].
#[verifier::ext_equal]
pub struct CommandInputView {
    pub version: u8,
    pub phase: CommandPhase,
    pub request: Option<CommandRequestView>,
    pub response: Option<CommandResponseView>,
}

/// The content of a [`CommandRequestPatch`].
#[verifier::ext_equal]
pub struct CommandRequestPatchView {
    pub method: Option<Seq<char>>,
    pub uri: Option<Seq<char>>,
    pub headers: Option<Map<Seq<char>, Seq<Seq<char>>>>,
    pub body_base64: Option<Seq<char>>,
}

/// The content of a [`CommandResponsePatch`].
#[verifier::ext_equal]
pub struct CommandResponsePatchView {
    pub status: Option<u16>,
    pub headers: Option<Map<Seq<char>, Seq<Seq<char>>>>,
    pub body_base64: Option<Seq<char>>,
}

/// The content of a [`CommandOutput`].
#[verifier::ext_equal]
pub struct CommandOutputView {
    pub version: Option<u8>,
    pub request: Option<CommandRequestPatchView>,
    pub response: Option<CommandResponsePatchView>,
}

impl DeepView for CommandRequest {
    type V = CommandRequestView;

    open spec fn deep_view(&self) -> CommandRequestView {
        CommandRequestView {
            method: self.method@,
            uri: self.uri@,
            headers: self.headers.deep_view(),
            body_base64: self.body_base64@,
        }
    }
}

impl DeepView for CommandResponse {
    type V = CommandResponseView;

    open spec fn deep_view(&self) -> CommandResponseView {
        CommandResponseView {
            status: self.status,
            headers: self.headers.deep_view(),
            body_base64: self.body_base64@,
        }
    }
}

impl DeepView for CommandInput {
    type V = CommandInputView;

    open spec fn deep_view(&self) -> CommandInputView {
        CommandInputView {
            version: self.version,
            phase: self.phase,
            request: self.request.deep_view(),
            response: self.response.deep_view(),
        }
    }
}

impl DeepView for CommandRequestPatch {
    type V = CommandRequestPatchView;

    open spec fn deep_view(&self) -> CommandRequestPatchView {
        CommandRequestPatchView {
            method: self.method.deep_view(),
            uri: self.uri.deep_view(),
            headers: self.headers.deep_view(),
            body_base64: self.body_base64.deep_view(),
        }
    }
}

impl DeepView for CommandResponsePatch {
    type V = CommandResponsePatchView;

    open spec fn deep_view(&self) -> CommandResponsePatchView {
        CommandResponsePatchView {
            status: self.status,
            headers: self.headers.deep_view(),
            body_base64: self.body_base64.deep_view(),
        }
    }
}

impl DeepView for CommandOutput {
    type V = CommandOutputView;

    open spec fn deep_view(&self) -> CommandOutputView {
        CommandOutputView {
            version: self.version,
            request: self.request.deep_view(),
            response: self.response.deep_view(),
        }
    }
}

/// What has happened in a run of a command.
#[derive(Debug)]
pub enum CommandEvent {
    /// A run is wanted, with this input.
    Started { input: CommandInput },
    /// The input is encoded.
    Encoded { payload: Vec<u8> },
    EncodeFailed { error: String },
    /// The command runs; `stdin` says whether its input can be written.
    Spawned { stdin: bool, payload: Vec<u8> },
    SpawnFailed { error: String },
    Written,
    WriteFailed { error: String },
    Closed,
    CloseFailed { error: String },
    /// The command has not ended in its time.
    TimedOut,
    /// The command has ended.
    Exited { success: bool, status: String, stdout: Vec<u8>, stderr: Vec<u8> },
    WaitFailed { error: String },
    /// The output is decoded.
    Decoded { output: CommandOutput },
    DecodeFailed { error: String },
}

/// What to do next in a run of a command.
#[derive(Debug)]
pub enum CommandAction {
    /// Encode the input as JSON.
    Encode { input: CommandInput },
    /// Run the program, without a shell. From here on it has `timeout_ms` milliseconds to end.
    Spawn { program: String, args: Vec<String>, timeout_ms: u64, payload: Vec<u8> },
    /// Write the whole payload to the command's input.
    Write { payload: Vec<u8> },
    /// Close the command's input.
    Close,
    /// Wait for the command to end.
    Wait,
    /// Decode the output from JSON.
    Decode { stdout: Vec<u8> },
    /// The run is over.
    Finish { outcome: Result<CommandOutput, PluginError> },
}

/// The content of a [`CommandEvent`].
#[verifier::ext_equal]
pub enum CommandEventView {
    Started { input: CommandInputView },
    Encoded { payload: Seq<u8> },
    EncodeFailed { error: Seq<char> },
    Spawned { stdin: bool, payload: Seq<u8> },
    SpawnFailed { error: Seq<char> },
    Written,
    WriteFailed { error: Seq<char> },
    Closed,
    CloseFailed { error: Seq<char> },
    TimedOut,
    Exited { success: bool, status: Seq<char>, stdout: Seq<u8>, stderr: Seq<u8> },
    WaitFailed { error: Seq<char> },
    Decoded { output: CommandOutputView },
    DecodeFailed { error: Seq<char> },
}

/// The content of a [`CommandAction`].
#[verifier::ext_equal]
pub enum CommandActionView {
    Encode { input: CommandInputView },
    Spawn { program: Seq<char>, args: Seq<Seq<char>>, timeout_ms: u64, payload: Seq<u8> },
    Write { payload: Seq<u8> },
    Close,
    Wait,
    Decode { stdout: Seq<u8> },
    Finish { outcome: Result<CommandOutputView, crate::plugins::PluginErrorView> },
}

impl DeepView for CommandEvent {
    type V = CommandEventView;

    open spec fn deep_view(&self) -> CommandEventView {
        match *self {
            CommandEvent::Started { input } => CommandEventView::Started {
                input: input.deep_view(),
            },
            CommandEvent::Encoded { payload } => CommandEventView::Encoded { payload: payload@ },
            CommandEvent::EncodeFailed { error } => CommandEventView::EncodeFailed {
                error: error@,
            },
            CommandEvent::Spawned { stdin, payload } => CommandEventView::Spawned {
                stdin,
                payload: payload@,
            },
            CommandEvent::SpawnFailed { error } => CommandEventView::SpawnFailed { error: error@ },
            CommandEvent::Written => CommandEventView::Written,
            CommandEvent::WriteFailed { error } => CommandEventView::WriteFailed { error: error@ },
            CommandEvent::Closed => CommandEventView::Closed,
            CommandEvent::CloseFailed { error } => CommandEventView::CloseFailed { error: error@ },
            CommandEvent::TimedOut => CommandEventView::TimedOut,
            CommandEvent::Exited { success, status, stdout, stderr } => CommandEventView::Exited {
                success,
                status: status@,
                stdout: stdout@,
                stderr: stderr@,
            },
            CommandEvent::WaitFailed { error } => CommandEventView::WaitFailed { error: error@ },
            CommandEvent::Decoded { output } => CommandEventView::Decoded {
                output: output.deep_view(),
            },
            CommandEvent::DecodeFailed { error } => CommandEventView::DecodeFailed {
                error: error@,
            },
        }
    }
}

impl DeepView for CommandAction {
    type V = CommandActionView;

    open spec fn deep_view(&self) -> CommandActionView {
        match *self {
            CommandAction::Encode { input } => CommandActionView::Encode {
                input: input.deep_view(),
            },
            CommandAction::Spawn { program, args, timeout_ms, payload } => CommandActionView::Spawn {
                program: program@,
                args: args.deep_view(),
                timeout_ms,
                payload: payload@,
            },
            CommandAction::Write { payload } => CommandActionView::Write { payload: payload@ },
            CommandAction::Close => CommandActionView::Close,
            CommandAction::Wait => CommandActionView::Wait,
            CommandAction::Decode { stdout } => CommandActionView::Decode { stdout: stdout@ },
            CommandAction::Finish { outcome } => CommandActionView::Finish {
                outcome: crate::views::outcome(outcome),
            },
        }
    }
}

/// The end of a run that failed.
pub open spec fn finished_with(message: Seq<char>) -> CommandActionView {
    CommandActionView::Finish { outcome: Err(failure(message)) }
}

/// The message about a command that ended without success.
pub open spec fn exit_message(status: Seq<char>, errors: Seq<char>) -> Seq<char> {
    "command exited with status "@ + status + ": "@ + text::trimmed(errors)
}

/// The next action in a run of the command `runner`, after `event`.
pub open spec fn next_action(
    runner: crate::config::CommandConfigView,
    event: CommandEventView,
) -> CommandActionView {
    match event {
        CommandEventView::Started { input } => CommandActionView::Encode { input },
        CommandEventView::Encoded { payload } => CommandActionView::Spawn {
            program: runner.program,
            args: runner.args,
            timeout_ms: runner.timeout_ms,
            payload,
        },
        CommandEventView::EncodeFailed { error } => finished_with(
            "failed to encode command input: "@ + error,
        ),
        CommandEventView::Spawned { stdin, payload } => if stdin {
            CommandActionView::Write { payload }
        } else {
            finished_with("failed to open command stdin"@)
        },
        CommandEventView::SpawnFailed { error } => finished_with(
            "failed to spawn command: "@ + error,
        ),
        CommandEventView::Written => CommandActionView::Close,
        CommandEventView::WriteFailed { error } => finished_with(
            "failed to write command stdin: "@ + error,
        ),
        CommandEventView::Closed => CommandActionView::Wait,
        CommandEventView::CloseFailed { error } => finished_with(
            "failed to close command stdin: "@ + error,
        ),
        CommandEventView::TimedOut => finished_with("command timed out"@),
        CommandEventView::Exited { success, status, stdout, stderr } => if !success {
            finished_with(exit_message(status, codec::lossy(stderr)))
        } else if stdout.len() == 0 {
            finished_with("command stdout is empty; expected JSON rewrite result"@)
        } else {
            CommandActionView::Decode { stdout }
        },
        CommandEventView::WaitFailed { error } => finished_with(
            "failed to wait for command: "@ + error,
        ),
        CommandEventView::Decoded { output } => if output.version matches Some(version) && version
            != PROTOCOL_VERSION {
            finished_with(
                "unsupported command output protocol version: "@ + text::decimal(
                    output.version->0 as nat,
                ),
            )
        } else {
            CommandActionView::Finish { outcome: Ok(output) }
        },
        CommandEventView::DecodeFailed { error } => finished_with(
            "failed to decode command stdout as JSON: "@ + error,
        ),
    }
}

fn finish(message: String) -> (r: CommandAction)
    ensures
        r.deep_view() == finished_with(message@),
{
    CommandAction::Finish { outcome: Err(failed(message)) }
}

/// The failure of a command that ended without success; `errors` is what it wrote to its stderr.
pub fn exit_failure(status: &str, errors: &str) -> (r: PluginError)
    ensures
        r.deep_view() == failure(exit_message(status@, errors@)),
{
    let trimmed = text::trim(errors);
    let start = text::join3("command exited with status ", status, ": ");
    failed(text::join2(start.as_str(), trimmed.as_str()))
}

impl CommandRunner {
    /// The next action in a run of the command, after `event`.
    pub fn execute(&self, event: CommandEvent) -> (action: CommandAction)
        ensures
            action.deep_view() == next_action(self.deep_view(), event.deep_view()),
    {
        match event {
            CommandEvent::Started { input } => CommandAction::Encode { input },
            CommandEvent::Encoded { payload } => {
                let args = self.args.clone();
                assert(args.deep_view() =~= self.args.deep_view());
                CommandAction::Spawn {
                    program: self.program.clone(),
                    args,
                    timeout_ms: self.timeout_ms,
                    payload,
                }
            },
            CommandEvent::EncodeFailed { error } => finish(
                text::join2("failed to encode command input: ", error.as_str()),
            ),
            CommandEvent::Spawned { stdin, payload } => if stdin {
                CommandAction::Write { payload }
            } else {
                finish("failed to open command stdin".to_owned())
            },
            CommandEvent::SpawnFailed { error } => finish(
                text::join2("failed to spawn command: ", error.as_str()),
            ),
            CommandEvent::Written => CommandAction::Close,
            CommandEvent::WriteFailed { error } => finish(
                text::join2("failed to write command stdin: ", error.as_str()),
            ),
            CommandEvent::Closed => CommandAction::Wait,
            CommandEvent::CloseFailed { error } => finish(
                text::join2("failed to close command stdin: ", error.as_str()),
            ),
            CommandEvent::TimedOut => finish("command timed out".to_owned()),
            CommandEvent::Exited { success, status, stdout, stderr } => if !success {
                let errors = codec::lossy_text(stderr.as_slice());
                CommandAction::Finish {
                    outcome: Err(exit_failure(status.as_str(), errors.as_str())),
                }
            } else if stdout.len() == 0 {
                finish("command stdout is empty; expected JSON rewrite result".to_owned())
            } else {
                CommandAction::Decode { stdout }
            },
            CommandEvent::WaitFailed { error } => finish(
                text::join2("failed to wait for command: ", error.as_str()),
            ),
            CommandEvent::Decoded { output } => match output.version {
                Some(version) if version != PROTOCOL_VERSION => finish(
                    text::join2(
                        "unsupported command output protocol version: ",
                        text::decimal_text(version).as_str(),
                    ),
                ),
                _ => CommandAction::Finish { outcome: Ok(output) },
            },
            CommandEvent::DecodeFailed { error } => finish(
                text::join2("failed to decode command stdout as JSON: ", error.as_str()),
            ),
        }
    }
}

/// Whether `event` is something that can happen when `action` is taken.
pub open spec fn answers(action: CommandActionView, event: CommandEventView) -> bool {
    match action {
        CommandActionView::Encode { .. } => event is Encoded || event is EncodeFailed,
        CommandActionView::Spawn { payload, .. } => event is SpawnFailed || (event matches
            CommandEventView::Spawned { payload: kept, .. } && kept == payload),
        CommandActionView::Write { .. } => event is Written || event is WriteFailed
            || event is TimedOut,
        CommandActionView::Close => event is Closed || event is CloseFailed || event is TimedOut,
        CommandActionView::Wait => event is Exited || event is WaitFailed || event is TimedOut,
        CommandActionView::Decode { .. } => event is Decoded || event is DecodeFailed,
        CommandActionView::Finish { .. } => false,
    }
}

/// Whether `events` are what happened, in order, in a run of the command `runner`.
pub open spec fn is_run(
    runner: crate::config::CommandConfigView,
    events: Seq<CommandEventView>,
) -> bool {
    &&& events.len() > 0
    &&& events[0] is Started
    &&& forall|i: int|
        0 < i < events.len() ==> answers(next_action(runner, events[i - 1]), #[trigger] events[i])
}

proof fn run_shape(runner: crate::config::CommandConfigView, events: Seq<CommandEventView>, n: int)
    requires
        is_run(runner, events),
        0 <= n < events.len(),
        n < 7,
    ensures
        forall|i: int|
            0 <= i < n ==> !(next_action(runner, #[trigger] events[i]) is Finish),
        n >= 1 ==> events[1] is Encoded || events[1] is EncodeFailed,
        n >= 2 ==> events[1] is Encoded,
        n >= 2 ==> events[2] is Spawned || events[2] is SpawnFailed,
        n >= 3 ==> events[2] is Spawned && events[2]->Spawned_stdin && events[2]->Spawned_payload
            == events[1]->Encoded_payload,
        n >= 3 ==> events[3] is Written || events[3] is WriteFailed || events[3] is TimedOut,
        n >= 4 ==> events[3] is Written,
        n >= 4 ==> events[4] is Closed || events[4] is CloseFailed || events[4] is TimedOut,
        n >= 5 ==> events[4] is Closed,
        n >= 5 ==> events[5] is Exited || events[5] is WaitFailed || events[5] is TimedOut,
        n >= 6 ==> events[5] is Exited && events[5]->success && events[5]->stdout.len() > 0,
        n >= 6 ==> events[6] is Decoded || events[6] is DecodeFailed,
    decreases n,
{
    if n > 0 {
        run_shape(runner, events, n - 1);
        assert(answers(next_action(runner, events[n - 1]), events[n]));
    }
}

/// Every run of a command comes to its end: after at most seven events it is finished, and in all
/// of it the command is started once at most.
pub proof fn runs_end(runner: crate::config::CommandConfigView, events: Seq<CommandEventView>)
    requires
        is_run(runner, events),
    ensures
        events.len() <= 7,
        events.len() == 7 ==> next_action(runner, events.last()) is Finish,
        forall|i: int|
            0 <= i < events.len() && next_action(runner, #[trigger] events[i]) is Spawn ==> i == 1,
{
    if events.len() >= 7 {
        run_shape(runner, events, 6);
        if events.len() > 7 {
            assert(answers(next_action(runner, events[6]), events[7]));
        }
    }
}

/// A run succeeds only if the command took the whole encoded input, ended with success within
/// its time, wrote something, and what it wrote decodes to an output of the spoken version.
pub proof fn success_is_earned(
    runner: crate::config::CommandConfigView,
    events: Seq<CommandEventView>,
    output: CommandOutputView,
)
    requires
        is_run(runner, events),
        next_action(runner, events.last()) == (CommandActionView::Finish { outcome: Ok(output) }),
    ensures
        events.len() == 7,
        events[1] is Encoded,
        next_action(runner, events[2]) == (CommandActionView::Write {
            payload: events[1]->Encoded_payload,
        }),
        events[3] is Written,
        events[4] is Closed,
        events[5] is Exited && events[5]->success && events[5]->stdout.len() > 0,
        events[6] == (CommandEventView::Decoded { output }),
        output.version is None || output.version == Some(PROTOCOL_VERSION),
{
    runs_end(runner, events);
    run_shape(runner, events, events.len() - 1);
}

/// What a command writes to its stderr counts only if it ended without success.
pub proof fn errors_of_successful_commands_are_ignored(
    runner: crate::config::CommandConfigView,
    status: Seq<char>,
    stdout: Seq<u8>,
    stderr: Seq<u8>,
)
    ensures
        next_action(runner, CommandEventView::Exited { success: true, status, stdout, stderr })
            == next_action(
            runner,
            CommandEventView::Exited { success: true, status, stdout, stderr: Seq::empty() },
        ),
{
}

/// In every run what is encoded is the input that the run was started with, the whole of it.
pub proof fn runs_encode_their_input(
    runner: crate::config::CommandConfigView,
    events: Seq<CommandEventView>,
    input: CommandInputView,
)
    requires
        is_run(runner, events),
        events[0] == (CommandEventView::Started { input }),
    ensures
        next_action(runner, events[0]) matches CommandActionView::Encode { input: encoded }
            && encoded.version == input.version && encoded.phase == input.phase && encoded.request
            == input.request && encoded.response == input.response,
{
}

/// In every run the command that is started is the configured program with the configured arguments
/// and time, and what is written to it is what the input was encoded to.
pub proof fn runs_start_the_configured_command(
    runner: crate::config::CommandConfigView,
    events: Seq<CommandEventView>,
    payload: Seq<u8>,
)
    requires
        is_run(runner, events),
        events.len() > 1,
        events[1] == (CommandEventView::Encoded { payload }),
    ensures
        next_action(runner, events[1]) matches CommandActionView::Spawn {
            program,
            args,
            timeout_ms,
            payload: kept,
        } && program == runner.program && args == runner.args && timeout_ms == runner.timeout_ms
            && kept == payload,
        events.len() > 2 && events[2] is Spawned && events[2]->Spawned_stdin ==> next_action(
            runner,
            events[2],
        ) == (CommandActionView::Write { payload }),
{
    if events.len() > 2 {
        assert(answers(next_action(runner, events[1]), events[2]));
    }
}

/// Whatever the payload is, a started command whose input can be written gets it, its input is
/// closed once it is written, and it is waited for once its input is closed.
pub proof fn commands_get_their_input(runner: crate::config::CommandConfigView, payload: Seq<u8>)
    ensures
        next_action(runner, CommandEventView::Spawned { stdin: true, payload })
            matches CommandActionView::Write { payload: written } && written == payload,
        next_action(runner, CommandEventView::Written) is Close,
        next_action(runner, CommandEventView::Closed) is Wait,
{
}

/// What a command that ended with success wrote is decoded as it is, unless it is nothing; and an
/// output that is decoded is taken as it is, unless it names another version.
pub proof fn success_is_owed(
    runner: crate::config::CommandConfigView,
    status: Seq<char>,
    stdout: Seq<u8>,
    stderr: Seq<u8>,
    output: CommandOutputView,
)
    ensures
        stdout.len() > 0 ==> (next_action(
            runner,
            CommandEventView::Exited { success: true, status, stdout, stderr },
        ) matches CommandActionView::Decode { stdout: decoded } && decoded == stdout),
        output.version is None || output.version == Some(1u8) ==> (next_action(
            runner,
            CommandEventView::Decoded { output },
        ) matches CommandActionView::Finish { outcome: Ok(taken) } && taken.version
            == output.version && taken.request == output.request && taken.response
            == output.response),
{
}

/// Whether `action` ends a run with a failure of this plugin that says `message`.
pub open spec fn ends_with(action: CommandActionView, message: Seq<char>) -> bool {
    action matches CommandActionView::Finish {
        outcome: Err(crate::plugins::PluginErrorView::Failed { plugin, message: said }),
    } && plugin == "command_rewrite"@ && said == message
}

/// Whatever goes wrong ends the run with a failure that says what it was and quotes the reason.
pub proof fn failures_end_the_run(
    runner: crate::config::CommandConfigView,
    payload: Seq<u8>,
    error: Seq<char>,
)
    ensures
        ends_with(
            next_action(runner, CommandEventView::EncodeFailed { error }),
            "failed to encode command input: "@ + error,
        ),
        ends_with(
            next_action(runner, CommandEventView::SpawnFailed { error }),
            "failed to spawn command: "@ + error,
        ),
        ends_with(
            next_action(runner, CommandEventView::Spawned { stdin: false, payload }),
            "failed to open command stdin"@,
        ),
        ends_with(
            next_action(runner, CommandEventView::WriteFailed { error }),
            "failed to write command stdin: "@ + error,
        ),
        ends_with(
            next_action(runner, CommandEventView::CloseFailed { error }),
            "failed to close command stdin: "@ + error,
        ),
        ends_with(next_action(runner, CommandEventView::TimedOut), "command timed out"@),
        ends_with(
            next_action(runner, CommandEventView::WaitFailed { error }),
            "failed to wait for command: "@ + error,
        ),
        ends_with(
            next_action(runner, CommandEventView::DecodeFailed { error }),
            "failed to decode command stdout as JSON: "@ + error,
        ),
{
}

/// A command that ended without success fails the run whatever it wrote, and its stderr is quoted
/// without the whitespace around it. So does one that wrote nothing, and one that speaks another
/// version, which is named.
pub proof fn faulty_commands_end_the_run(
    runner: crate::config::CommandConfigView,
    status: Seq<char>,
    stdout: Seq<u8>,
    stderr: Seq<u8>,
    output: CommandOutputView,
)
    ensures
        ends_with(
            next_action(
                runner,
                CommandEventView::Exited { success: false, status, stdout, stderr },
            ),
            "command exited with status "@ + status + ": "@ + text::trimmed(codec::lossy(stderr)),
        ),
        stdout.len() == 0 ==> ends_with(
            next_action(runner, CommandEventView::Exited { success: true, status, stdout, stderr }),
            "command stdout is empty; expected JSON rewrite result"@,
        ),
        output.version matches Some(version) ==> version != 1 ==> ends_with(
            next_action(runner, CommandEventView::Decoded { output }),
            "unsupported command output protocol version: "@ + text::decimal(version as nat),
        ),
{
}

/// A command can be run if and only if its program has a character that is no whitespace and it has
/// some time. Where both are missing it is the program that is blamed.
pub proof fn commands_need_a_name_and_time(config: crate::config::CommandConfigView)
    ensures
        command_fault(config) is None <==> config.timeout_ms > 0 && exists|i: int|
            0 <= i < config.program.len() && !text::is_whitespace(#[trigger] config.program[i]),
        command_fault(config) == Some(ConfigError::EmptyProgram) <==> forall|i: int|
            0 <= i < config.program.len() ==> text::is_whitespace(#[trigger] config.program[i]),
        command_fault(config) is Some ==> command_fault(config) == Some(ConfigError::EmptyProgram)
            || command_fault(config) == Some(ConfigError::ZeroTimeout),
{
    text::trimming_takes_whitespace_only(config.program);
}

} // verus!
