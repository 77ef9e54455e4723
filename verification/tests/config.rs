//! The command line and the configuration.

use dshtui::config::{
    is_loopback, parse_cli, redact_summary, Cli, CliAction, Config, ConfigError, DraftsConfig,
    Effective, ExportConfig, KeymapConfig, MonitorConfig, PerfConfig, ServerConfig, UiConfig,
    DEFAULT_MONITOR_ADDR, DEFAULT_TOKEN_ENV, DEFAULT_URL, DETAILS_WIDTH_CELLS_MAX,
    DETAILS_WIDTH_CELLS_MIN,
};
use dshtui::config_file::usage_text;

fn args(list: &[&str]) -> Vec<String> {
    list.iter().map(|s| s.to_string()).collect()
}

fn with_token_env(name: &str) -> Cli {
    Cli { token_env: Some(name.into()), ..Cli::default() }
}

#[test]
fn cli_defaults_to_run_action() {
    let cli = parse_cli(args(&["dshtui"])).unwrap();
    assert_eq!(cli.action, CliAction::Run);
    assert!(cli.url.is_none());
    assert!(cli.token_env.is_none());
}

#[test]
fn cli_parses_url_token_env_and_log() {
    let cli = parse_cli(args(&[
        "dshtui",
        "--url",
        "http://localhost:3081",
        "--token",
        "MY_DSH_TOKEN",
        "--log",
        "/tmp/dshtui.log",
    ]))
    .unwrap();
    assert_eq!(cli.url.as_deref(), Some("http://localhost:3081"));
    assert_eq!(cli.token_env.as_deref(), Some("MY_DSH_TOKEN"));
    assert_eq!(cli.log_file.as_deref(), Some("/tmp/dshtui.log"));
    assert_eq!(cli.action, CliAction::Run);
}

#[test]
fn cli_help_and_version() {
    let cli = parse_cli(args(&["dshtui", "--help"])).unwrap();
    assert_eq!(cli.action, CliAction::Help);
    let cli = parse_cli(args(&["dshtui", "--version"])).unwrap();
    assert_eq!(cli.action, CliAction::Version);
    assert!(!usage_text("0.1.0").is_empty());
}

#[test]
fn cli_rejects_unknown_flag() {
    let err = parse_cli(args(&["dshtui", "--nope"])).unwrap_err();
    assert!(err.contains("未知参数"), "err={err}");
}

#[test]
fn cli_rejects_secret_as_token_arg() {
    let err = parse_cli(args(&["dshtui", "--token", "v1.abcDEF123!@#"])).unwrap_err();
    assert!(err.contains("环境变量名"), "err={err}");
}

#[test]
fn cli_missing_value_fails() {
    assert!(parse_cli(args(&["dshtui", "--url"])).is_err());
}

#[test]
fn load_defaults_when_file_missing() {
    let cfg = Config::default().validate().unwrap();
    assert_eq!(cfg.server.url, DEFAULT_URL);
    assert_eq!(cfg.perf.window_messages, 200);
    assert_eq!(cfg.perf.page_size, 50);
    assert_eq!(cfg.ui.tick_ms, 33);
}

#[test]
fn validate_rejects_zero_window() {
    let cfg = Config {
        perf: PerfConfig { window_messages: 0, ..PerfConfig::default() },
        ..Config::default()
    };
    assert!(matches!(cfg.validate(), Err(ConfigError::InvalidValue { .. })));
}

#[test]
fn validate_rejects_zero_page() {
    let page = Config {
        perf: PerfConfig { page_size: 0, ..PerfConfig::default() },
        ..Config::default()
    };
    assert!(matches!(page.validate(), Err(ConfigError::InvalidValue { .. })));
}

#[test]
fn resolve_precedence_cli_selector_over_env() {
    // The variable that the command line names comes before DSH_TOKEN.
    let cfg = Config::default();
    let eff = cfg
        .resolve(
            &with_token_env("CLI_TOKEN"),
            Some("from-cli".into()),
            Some("from-default-env".into()),
        )
        .unwrap();
    assert_eq!(eff.token.as_deref(), Some("from-cli"));

    // DSH_TOKEN comes before the file.
    let cfg = Config {
        server: ServerConfig { token: "cfg-token".into(), ..ServerConfig::default() },
        ..Config::default()
    };
    let eff = cfg.resolve(&Cli::default(), None, Some("from-default-env".into())).unwrap();
    assert_eq!(eff.token.as_deref(), Some("from-default-env"));

    // The file comes last.
    let eff = cfg.resolve(&Cli::default(), None, None).unwrap();
    assert_eq!(eff.token.as_deref(), Some("cfg-token"));

    // Nothing at all: no token.
    let cfg2 = Config::default();
    let eff2 = cfg2.resolve(&Cli::default(), None, None).unwrap();
    assert_eq!(eff2.token, None);

    // A variable that is named and not set.
    let err = cfg2.resolve(&with_token_env("NOPE_TOKEN"), None, None).unwrap_err();
    assert!(matches!(err, ConfigError::TokenEnvMissing { ref name } if name == "NOPE_TOKEN"));

    // The failure leaves no trace.
    let eff3 = cfg2
        .resolve(&with_token_env("CLI_TOKEN"), Some("from-cli-again".into()), None)
        .unwrap();
    assert_eq!(eff3.token.as_deref(), Some("from-cli-again"));
}

#[test]
fn cli_url_overrides_config() {
    let cfg = Config {
        server: ServerConfig { url: "http://127.0.0.1:3081".into(), ..ServerConfig::default() },
        ..Config::default()
    };
    let cli = Cli { url: Some("http://localhost:9999".into()), ..Cli::default() };
    let eff = cfg.resolve(&cli, None, None).unwrap();
    assert_eq!(eff.url, "http://localhost:9999");
    let eff = cfg.resolve(&Cli::default(), None, None).unwrap();
    assert_eq!(eff.url, "http://127.0.0.1:3081");
}

#[test]
fn loopback_detection() {
    assert!(is_loopback("http://127.0.0.1:3080"));
    assert!(is_loopback("http://localhost:3080/api"));
    assert!(is_loopback("http://[::1]:3080"));
    assert!(!is_loopback("http://192.168.1.10:3080"));
    assert!(!is_loopback("http://ds.example.com"));
}

#[test]
fn redaction_never_leaks_token() {
    let eff = Effective {
        url: "http://127.0.0.1:3080".into(),
        token: Some("super-secret-token".into()),
        ui: UiConfig::default(),
        perf: PerfConfig::default(),
        monitor: MonitorConfig::default(),
        drafts: DraftsConfig::default(),
        export: ExportConfig::default(),
        keymap: KeymapConfig::default(),
    };
    let s = redact_summary(&eff);
    assert!(!s.contains("super-secret-token"));
    assert!(s.contains("***"));
}

#[test]
fn cli_parses_monitor_subcommand() {
    let cli = parse_cli(args(&["dshtui", "monitor"])).unwrap();
    assert_eq!(cli.action, CliAction::Monitor { addr: None });
    assert_eq!(cli.log_file, None);
}

#[test]
fn cli_parses_monitor_with_addr_and_log() {
    let cli = parse_cli(args(&[
        "dshtui",
        "monitor",
        "--addr",
        "http://127.0.0.1:9000",
        "--log",
        "/tmp/mon.log",
    ]))
    .unwrap();
    assert_eq!(
        cli.action,
        CliAction::Monitor { addr: Some("http://127.0.0.1:9000".into()) }
    );
    assert_eq!(cli.log_file.as_deref(), Some("/tmp/mon.log"));
}

#[test]
fn cli_monitor_rejects_unknown_arg() {
    let err = parse_cli(args(&["dshtui", "monitor", "--nope"])).unwrap_err();
    assert!(err.contains("未知参数"), "err={err}");
}

#[test]
fn cli_monitor_missing_addr_value_fails() {
    assert!(parse_cli(args(&["dshtui", "monitor", "--addr"])).is_err());
}

#[test]
fn monitor_config_defaults_and_file_override() {
    let cfg = Config::default();
    assert_eq!(cfg.monitor.addr, DEFAULT_MONITOR_ADDR);
    assert_eq!(cfg.monitor.poll_agents_ms, 2000);
    assert_eq!(cfg.monitor.poll_kb_ms, 30_000);

    let cfg = Config {
        monitor: MonitorConfig {
            addr: "http://127.0.0.1:8799".into(),
            poll_agents_ms: 1000,
            poll_kb_ms: 15000,
        },
        ..Config::default()
    };
    let cfg = cfg.validate().unwrap();
    assert_eq!(cfg.monitor.poll_agents_ms, 1000);
    assert_eq!(cfg.monitor.poll_kb_ms, 15_000);
}

#[test]
fn monitor_cli_addr_overrides_config() {
    let cfg = Config {
        monitor: MonitorConfig { addr: "http://127.0.0.1:8888".into(), ..MonitorConfig::default() },
        ..Config::default()
    };
    let cli = Cli {
        action: CliAction::Monitor { addr: Some("http://127.0.0.1:9999".into()) },
        ..Cli::default()
    };
    let eff = cfg.resolve(&cli, None, None).unwrap();
    assert_eq!(eff.monitor.addr, "http://127.0.0.1:9999");
    let eff2 = cfg.resolve(&Cli::default(), None, None).unwrap();
    assert_eq!(eff2.monitor.addr, "http://127.0.0.1:8888");
}

#[test]
fn validate_rejects_zero_monitor_poll() {
    let agents = Config {
        monitor: MonitorConfig { poll_agents_ms: 0, ..MonitorConfig::default() },
        ..Config::default()
    };
    assert!(matches!(agents.validate(), Err(ConfigError::InvalidValue { .. })));
    let kb = Config {
        monitor: MonitorConfig { poll_kb_ms: 0, ..MonitorConfig::default() },
        ..Config::default()
    };
    assert!(matches!(kb.validate(), Err(ConfigError::InvalidValue { .. })));
}

#[test]
fn usage_text_mentions_monitor_and_kitty() {
    let s = usage_text("0.1.0");
    assert!(s.contains("monitor"));
    assert!(s.contains("kitty.conf"));
    assert!(s.contains(DEFAULT_MONITOR_ADDR));
    assert!(s.contains(DEFAULT_TOKEN_ENV));
    assert!(s.contains("0.1.0"));
}

fn width_after_validate(cells: u16) -> u16 {
    let cfg = Config {
        ui: UiConfig { details_width_cells: cells, ..UiConfig::default() },
        ..Config::default()
    };
    cfg.validate().unwrap().ui.details_width_cells
}

#[test]
fn details_width_default_is_45() {
    let cfg = Config::default();
    assert_eq!(cfg.ui.details_width_cells, 45);
    let cfg = Config {
        ui: UiConfig { show_turn_rail: true, ..UiConfig::default() },
        ..Config::default()
    };
    assert_eq!(cfg.validate().unwrap().ui.details_width_cells, 45);
}

#[test]
fn details_width_is_clamped_to_30_60() {
    assert_eq!(width_after_validate(10), 30);
    assert_eq!(width_after_validate(200), 60);
    assert_eq!(width_after_validate(36), 36);
    assert_eq!(DETAILS_WIDTH_CELLS_MIN, 30);
    assert_eq!(DETAILS_WIDTH_CELLS_MAX, 60);
}

#[test]
fn effective_carries_details_width_for_injection() {
    let cfg = Config {
        ui: UiConfig { details_width_cells: 50, ..UiConfig::default() },
        ..Config::default()
    };
    let cfg = cfg.validate().unwrap();
    let eff = cfg.resolve(&Cli::default(), None, None).unwrap();
    assert_eq!(eff.ui.details_width_cells, 50);
}

#[test]
fn v04_defaults_drafts_enabled_export_empty() {
    let cfg = Config::default();
    assert!(cfg.drafts.enabled);
    assert!(!cfg.drafts.clear);
    assert!(cfg.export.default_dir.is_empty());
    assert!(cfg.ui.palette.is_empty());
    assert!(!cfg.ui.show_timeline);
    assert_eq!(cfg.ui.max_image_count, 10);
    assert_eq!(cfg.ui.max_image_bytes, 20 * 1024 * 1024);
    assert!(cfg.ui.editor.is_none());
    let eff = cfg.resolve(&Cli::default(), None, None).unwrap();
    assert!(eff.drafts.enabled);
    assert_eq!(eff.ui.max_image_count, 10);
}

#[test]
fn config_errors_have_words() {
    let io = ConfigError::Io { path: "/a".into(), message: "gone".into() };
    assert!(io.message().contains("/a") && io.message().contains("gone"));
    let toml = ConfigError::Toml { path: "/b".into(), message: "bad".into() };
    assert!(toml.message().contains("/b") && toml.message().contains("bad"));
    let value = ConfigError::InvalidValue { path: "/c".into(), message: "zero".into() };
    assert_eq!(value.message(), "配置值非法: zero");
    let env = ConfigError::TokenEnvMissing { name: "X_TOKEN".into() };
    assert!(env.message().contains("X_TOKEN"));
}
