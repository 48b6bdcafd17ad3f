//! The configuration, and the plugins that come of it.

use toml::{Table, Value};
use traffwd::config::{
    default_command_timeout_ms, AppConfig, CommandConfig, CommandRewriteConfig, ConfigError,
    ListenAddr, PluginConfig,
};
use traffwd::plugins::command_rewrite::CommandRewritePlugin;
use traffwd::plugins::{build_plugins, has_buffered_response_plugins, TrafficPlugin};

fn listen_addr(text: &str) -> ListenAddr {
    let (address, port) = text.rsplit_once(':').expect("address should have a port");
    let mut octets = [0u8; 4];
    for (octet, part) in octets.iter_mut().zip(address.split('.')) {
        *octet = part.parse().expect("octet should parse");
    }
    ListenAddr::V4 { octets, port: port.parse().expect("port should parse") }
}

fn listen_text(listen: &ListenAddr) -> String {
    match listen {
        ListenAddr::V4 { octets: [a, b, c, d], port } => format!("{a}.{b}.{c}.{d}:{port}"),
        ListenAddr::V6 { .. } => panic!("no such address is used here"),
    }
}

fn text(value: &Value) -> String {
    value.as_str().expect("value should be a string").to_owned()
}

fn command(value: &Value) -> CommandConfig {
    CommandConfig::from_file(
        text(&value["program"]),
        value
            .get("args")
            .map(|args| args.as_array().expect("args should be a list").iter().map(text).collect()),
        value
            .get("timeout_ms")
            .map(|time| time.as_integer().expect("timeout_ms should be a number") as u64),
    )
}

fn plugin(value: &Value) -> PluginConfig {
    assert_eq!(text(&value["type"]), "command_rewrite");
    PluginConfig::CommandRewrite(CommandRewriteConfig {
        request: value.get("request").map(command),
        response: value.get("response").map(command),
    })
}

fn app_config(content: &str) -> AppConfig {
    let table: Table = content.parse().expect("valid TOML config should deserialize");
    AppConfig::from_file(
        table.get("listen").map(|listen| listen_addr(&text(listen))),
        table.get("plugins").map(|plugins| {
            plugins.as_array().expect("plugins should be a list").iter().map(plugin).collect()
        }),
    )
}

fn command_config(program: &str, timeout_ms: u64) -> CommandConfig {
    CommandConfig { program: program.to_owned(), args: Vec::new(), timeout_ms }
}

fn rewrite(request: Option<CommandConfig>, response: Option<CommandConfig>) -> PluginConfig {
    PluginConfig::CommandRewrite(CommandRewriteConfig { request, response })
}

#[test]
fn parses_toml_config_with_command_rewrite_plugin() {
    let config = app_config(
        r#"
listen = "127.0.0.1:18080"

[[plugins]]
type = "command_rewrite"

[plugins.request]
program = "request-rewriter"
args = ["--request"]
timeout_ms = 1500

[plugins.response]
program = "response-rewriter"
"#,
    );

    assert_eq!(listen_text(&config.listen), "127.0.0.1:18080");
    assert_eq!(config.plugins.len(), 1);

    let PluginConfig::CommandRewrite(command_rewrite) = &config.plugins[0];
    let request = command_rewrite.request.as_ref().expect("request command should be configured");
    let response =
        command_rewrite.response.as_ref().expect("response command should be configured");

    assert_eq!(request.program, "request-rewriter");
    assert_eq!(request.args, ["--request"]);
    assert_eq!(request.timeout_ms, 1500);
    assert_eq!(response.program, "response-rewriter");
    assert_eq!(response.timeout_ms, 1000);
}

#[test]
fn build_plugins_rejects_empty_command_rewrite() {
    let config = app_config(
        r#"
[[plugins]]
type = "command_rewrite"
"#,
    );

    let error = match build_plugins(&config.plugins) {
        Ok(_) => panic!("empty command rewrite should fail to build"),
        Err(error) => error,
    };
    assert!(
        error.message().contains("requires at least one request or response command"),
        "unexpected error: {}",
        error.message()
    );
}

#[test]
fn default_configuration_listens_on_the_loopback() {
    let config = AppConfig::default();
    assert_eq!(listen_text(&config.listen), "127.0.0.1:8080");
    assert!(config.plugins.is_empty());
    assert_eq!(default_command_timeout_ms(), 1000);
}

#[test]
fn empty_file_gives_the_defaults() {
    let config = app_config("");
    assert_eq!(listen_text(&config.listen), "127.0.0.1:8080");
    assert!(config.plugins.is_empty());
}

#[test]
fn command_line_address_wins() {
    let config = app_config("listen = \"127.0.0.1:18080\"\nplugins = []\n");
    let kept = config.clone().listening_on(None);
    assert_eq!(listen_text(&kept.listen), "127.0.0.1:18080");
    let moved = config.listening_on(Some(listen_addr("10.0.0.7:9")));
    assert_eq!(listen_text(&moved.listen), "10.0.0.7:9");
}

#[test]
fn clones_keep_the_plugins() {
    let config = AppConfig::from_file(
        None,
        Some(vec![rewrite(Some(command_config("a", 5)), None), rewrite(None, None)]),
    );
    let copy = config.clone();
    assert_eq!(copy.plugins.len(), 2);
    let PluginConfig::CommandRewrite(first) = &copy.plugins[0];
    assert_eq!(first.request.as_ref().map(|command| command.program.as_str()), Some("a"));
    assert!(first.response.is_none());
}

#[test]
fn faulty_commands_are_refused() {
    let blank = CommandRewriteConfig { request: Some(command_config(" \t\u{3000}", 5)), response: None };
    assert_eq!(
        CommandRewritePlugin::try_new(blank).err(),
        Some(ConfigError::EmptyProgram)
    );
    let hasty = CommandRewriteConfig { request: None, response: Some(command_config("cat", 0)) };
    let error = CommandRewritePlugin::try_new(hasty).err().expect("no time should be refused");
    assert_eq!(error, ConfigError::ZeroTimeout);
    assert_eq!(error.message(), "command_rewrite timeout_ms must be greater than zero");
    assert_eq!(ConfigError::EmptyProgram.message(), "command_rewrite program cannot be empty");
}

#[test]
fn first_faulty_plugin_is_reported() {
    let configs = [
        rewrite(Some(command_config("cat", 1)), None),
        rewrite(Some(command_config("cat", 0)), None),
        rewrite(None, None),
    ];
    assert_eq!(build_plugins(&configs).err(), Some(ConfigError::ZeroTimeout));
    assert_eq!(build_plugins(&configs[..1]).map(|plugins| plugins.len()).ok(), Some(1));
}

#[test]
fn request_fault_comes_before_response_fault() {
    let config = CommandRewriteConfig {
        request: Some(command_config("cat", 0)),
        response: Some(command_config("", 1)),
    };
    assert_eq!(CommandRewritePlugin::try_new(config).err(), Some(ConfigError::ZeroTimeout));
}

#[test]
fn only_response_commands_ask_for_whole_responses() {
    let requests = build_plugins(&[rewrite(Some(command_config("cat", 1)), None)])
        .expect("plugin should build");
    assert!(!has_buffered_response_plugins(&requests));
    let both = build_plugins(&[
        rewrite(Some(command_config("cat", 1)), None),
        rewrite(None, Some(command_config("cat", 1))),
    ])
    .expect("plugins should build");
    assert!(has_buffered_response_plugins(&both));
    assert_eq!(both[0].name(), "command_rewrite");
    assert!(!has_buffered_response_plugins(&both[..1]));
    assert!(!has_buffered_response_plugins::<CommandRewritePlugin>(&[]));
}
