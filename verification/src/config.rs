//! What the proxy is configured with.

use vstd::prelude::*;

verus! {

/// A socket address to listen on.
#[derive(Debug, Clone, Copy)]
pub enum ListenAddr {
    V4 { octets: [u8; 4], port: u16 },
    V6 { segments: [u16; 8], port: u16, flowinfo: u32, scope_id: u32 },
}

/// The content of a [`ListenAddr`].
#[verifier::ext_equal]
pub enum ListenView {
    V4 { octets: Seq<u8>, port: u16 },
    V6 { segments: Seq<u16>, port: u16, flowinfo: u32, scope_id: u32 },
}

impl DeepView for ListenAddr {
    type V = ListenView;

    open spec fn deep_view(&self) -> ListenView {
        match *self {
            ListenAddr::V4 { octets, port } => ListenView::V4 { octets: octets@, port },
            ListenAddr::V6 { segments, port, flowinfo, scope_id } => ListenView::V6 {
                segments: segments@,
                port,
                flowinfo,
                scope_id,
            },
        }
    }
}

/// The whole configuration: where to listen and which plugins to run, in order.
#[derive(Debug)]
pub struct AppConfig {
    pub listen: ListenAddr,
    pub plugins: Vec<PluginConfig>,
}

/// The configuration of one plugin.
#[derive(Debug)]
pub enum PluginConfig {
    CommandRewrite(CommandRewriteConfig),
}

/// The commands that rewrite requests and responses.
#[derive(Debug)]
pub struct CommandRewriteConfig {
    pub request: Option<CommandConfig>,
    pub response: Option<CommandConfig>,
}

/// A program, its arguments, and how long one run of it may take.
#[derive(Debug)]
pub struct CommandConfig {
    pub program: String,
    pub args: Vec<String>,
    pub timeout_ms: u64,
}

/// The content of a [`CommandConfig`].
#[verifier::ext_equal]
pub struct CommandConfigView {
    pub program: Seq<char>,
    pub args: Seq<Seq<char>>,
    pub timeout_ms: u64,
}

/// The content of a [`CommandRewriteConfig`].
#[verifier::ext_equal]
pub struct CommandRewriteConfigView {
    pub request: Option<CommandConfigView>,
    pub response: Option<CommandConfigView>,
}

/// The content of a [`PluginConfig`].
#[verifier::ext_equal]
pub enum PluginConfigView {
    CommandRewrite(CommandRewriteConfigView),
}

/// The content of an [`AppConfig`].
#[verifier::ext_equal]
pub struct AppConfigView {
    pub listen: ListenView,
    pub plugins: Seq<PluginConfigView>,
}

impl DeepView for CommandConfig {
    type V = CommandConfigView;

    open spec fn deep_view(&self) -> CommandConfigView {
        CommandConfigView {
            program: self.program@,
            args: self.args.deep_view(),
            timeout_ms: self.timeout_ms,
        }
    }
}

impl DeepView for CommandRewriteConfig {
    type V = CommandRewriteConfigView;

    open spec fn deep_view(&self) -> CommandRewriteConfigView {
        CommandRewriteConfigView {
            request: self.request.deep_view(),
            response: self.response.deep_view(),
        }
    }
}

impl DeepView for PluginConfig {
    type V = PluginConfigView;

    open spec fn deep_view(&self) -> PluginConfigView {
        match *self {
            PluginConfig::CommandRewrite(config) => PluginConfigView::CommandRewrite(
                config.deep_view(),
            ),
        }
    }
}

impl DeepView for AppConfig {
    type V = AppConfigView;

    open spec fn deep_view(&self) -> AppConfigView {
        AppConfigView { listen: self.listen.deep_view(), plugins: self.plugins.deep_view() }
    }
}

/// Why a configuration is refused.
#[derive(Debug, Clone, Copy, PartialEq, Eq, Structural)]
pub enum ConfigError {
    NoCommand,
    EmptyProgram,
    ZeroTimeout,
}

impl DeepView for ConfigError {
    type V = ConfigError;

    open spec fn deep_view(&self) -> ConfigError {
        *self
    }
}

impl ConfigError {
    /// The text of the error.
    pub open spec fn text(self) -> Seq<char> {
        match self {
            ConfigError::NoCommand =>
                "command_rewrite requires at least one request or response command"@,
            ConfigError::EmptyProgram => "command_rewrite program cannot be empty"@,
            ConfigError::ZeroTimeout => "command_rewrite timeout_ms must be greater than zero"@,
        }
    }

    /// The text of the error.
    pub fn message(&self) -> (r: String)
        ensures
            r@ == self.text(),
    {
        match self {
            ConfigError::NoCommand =>
                "command_rewrite requires at least one request or response command".to_owned(),
            ConfigError::EmptyProgram => "command_rewrite program cannot be empty".to_owned(),
            ConfigError::ZeroTimeout =>
                "command_rewrite timeout_ms must be greater than zero".to_owned(),
        }
    }
}

/// The address that is listened on where none is configured: port 8080 of the loopback.
pub open spec fn default_listen() -> ListenView {
    ListenView::V4 { octets: seq![127, 0, 0, 1], port: 8080 }
}

/// The configuration where none is given.
pub open spec fn default_config() -> AppConfigView {
    AppConfigView { listen: default_listen(), plugins: Seq::empty() }
}

/// How long a command may take where no time is configured, in milliseconds.
pub fn default_command_timeout_ms() -> (r: u64)
    ensures
        r == 1000,
{
    1000
}

impl Default for AppConfig {
    fn default() -> (r: Self)
        ensures
            r.deep_view() == default_config(),
    {
        let config = AppConfig {
            listen: ListenAddr::V4 { octets: [127, 0, 0, 1], port: 8080 },
            plugins: Vec::new(),
        };
        assert(config.listen.deep_view() =~= default_listen());
        assert(config.plugins.deep_view() =~= Seq::<PluginConfigView>::empty());
        config
    }
}

impl AppConfig {
    /// The configuration that a file gives; what it leaves out has its default.
    pub fn from_file(listen: Option<ListenAddr>, plugins: Option<Vec<PluginConfig>>) -> (r: Self)
        ensures
            r.deep_view().listen == (match listen {
                Some(address) => address.deep_view(),
                None => default_listen(),
            }),
            r.deep_view().plugins == (match plugins {
                Some(configs) => configs.deep_view(),
                None => Seq::empty(),
            }),
    {
        let mut config = AppConfig::default();
        if let Some(address) = listen {
            config.listen = address;
        }
        if let Some(configs) = plugins {
            config.plugins = configs;
        }
        config
    }

    /// The configuration with the address of the command line, where that has one.
    pub fn listening_on(self, listen: Option<ListenAddr>) -> (r: Self)
        ensures
            r.deep_view() == (AppConfigView {
                listen: match listen {
                    Some(address) => address.deep_view(),
                    None => self.deep_view().listen,
                },
                plugins: self.deep_view().plugins,
            }),
    {
        match listen {
            Some(address) => AppConfig { listen: address, plugins: self.plugins },
            None => self,
        }
    }
}

impl CommandConfig {
    /// The command that a file gives; what it leaves out has its default.
    pub fn from_file(program: String, args: Option<Vec<String>>, timeout_ms: Option<u64>) -> (r:
        Self)
        ensures
            r.deep_view() == (CommandConfigView {
                program: program@,
                args: match args {
                    Some(args) => args.deep_view(),
                    None => Seq::empty(),
                },
                timeout_ms: match timeout_ms {
                    Some(timeout_ms) => timeout_ms,
                    None => 1000,
                },
            }),
    {
        let args = match args {
            Some(args) => args,
            None => Vec::new(),
        };
        let timeout_ms: u64 = match timeout_ms {
            Some(timeout_ms) => timeout_ms,
            None => default_command_timeout_ms(),
        };
        let r = CommandConfig { program, args, timeout_ms };
        assert(r.args@.len() == 0 ==> r.args.deep_view() =~= Seq::<Seq<char>>::empty());
        r
    }
}

impl Clone for CommandConfig {
    fn clone(&self) -> (r: Self)
        ensures
            r.deep_view() == self.deep_view(),
    {
        let args = self.args.clone();
        assert(args.deep_view() =~= self.args.deep_view());
        CommandConfig { program: self.program.clone(), args, timeout_ms: self.timeout_ms }
    }
}

fn cloned_command(config: &Option<CommandConfig>) -> (r: Option<CommandConfig>)
    ensures
        r.deep_view() == config.deep_view(),
{
    match config {
        Some(config) => Some(config.clone()),
        None => None,
    }
}

impl Clone for CommandRewriteConfig {
    fn clone(&self) -> (r: Self)
        ensures
            r.deep_view() == self.deep_view(),
    {
        CommandRewriteConfig {
            request: cloned_command(&self.request),
            response: cloned_command(&self.response),
        }
    }
}

impl Clone for PluginConfig {
    fn clone(&self) -> (r: Self)
        ensures
            r.deep_view() == self.deep_view(),
    {
        match self {
            PluginConfig::CommandRewrite(config) => PluginConfig::CommandRewrite(config.clone()),
        }
    }
}

impl Clone for AppConfig {
    fn clone(&self) -> (r: Self)
        ensures
            r.deep_view() == self.deep_view(),
    {
        let mut plugins: Vec<PluginConfig> = Vec::new();
        let mut at: usize = 0;
        while at < self.plugins.len()
            invariant
                at <= self.plugins@.len(),
                plugins@.len() == at,
                forall|i: int|
                    0 <= i < at ==> (#[trigger] plugins@[i]).deep_view()
                        == self.plugins@[i].deep_view(),
            decreases self.plugins@.len() - at,
        {
            plugins.push(self.plugins[at].clone());
            at = at + 1;
        }
        assert(plugins.deep_view() =~= self.plugins.deep_view());
        AppConfig { listen: self.listen, plugins }
    }
}

/// Every fault is told in its own words.
pub proof fn faults_are_told_apart(a: ConfigError, b: ConfigError)
    ensures
        a.text() == b.text() ==> a == b,
        a == ConfigError::NoCommand ==> a.text()
            == "command_rewrite requires at least one request or response command"@,
        a == ConfigError::EmptyProgram ==> a.text() == "command_rewrite program cannot be empty"@,
        a == ConfigError::ZeroTimeout ==> a.text()
            == "command_rewrite timeout_ms must be greater than zero"@,
{
    reveal_strlit("command_rewrite requires at least one request or response command");
    assert("command_rewrite requires at least one request or response command"@.len() == 65);
    reveal_strlit("command_rewrite program cannot be empty");
    assert("command_rewrite program cannot be empty"@.len() == 39);
    reveal_strlit("command_rewrite timeout_ms must be greater than zero");
    assert("command_rewrite timeout_ms must be greater than zero"@.len() == 52);
}

/// Without an address and without plugins in it, a file says nothing but the default: the loopback
/// at port 8080, and no plugins.
pub proof fn default_is_the_loopback()
    ensures
        default_config().plugins.len() == 0,
        default_config().listen matches ListenView::V4 { octets, port } && octets == seq![
            127u8,
            0u8,
            0u8,
            1u8,
        ] && port == 8080,
{
}

} // verus!
