use superconfig::fluent::{extension_candidates_of, resolve_config_file};
use superconfig::verbosity::{DebugCollector, DebugMessage, DEBUG, INFO, SILENT, TRACE};
use superconfig::{SuperConfig, VerbosityLevel};

const DEFAULT_CONFIG: &str = r#"
[scanner]
mode = "standard"
timeout = 30

[log]
level = "info"
"#;

#[test]
fn test_verbosity_level_from_cli_args() {
    assert_eq!(VerbosityLevel::from_cli_args(0), VerbosityLevel::Silent);
    assert_eq!(VerbosityLevel::from_cli_args(1), VerbosityLevel::Info);
    assert_eq!(VerbosityLevel::from_cli_args(2), VerbosityLevel::Debug);
    assert_eq!(VerbosityLevel::from_cli_args(3), VerbosityLevel::Trace);
    assert_eq!(VerbosityLevel::from_cli_args(5), VerbosityLevel::Trace);
}

#[test]
fn test_verbosity_builder_methods() {
    let config = SuperConfig::new().with_info_verbosity().with_defaults_string(DEFAULT_CONFIG);

    assert_eq!(config.verbosity(), VerbosityLevel::Info);

    let config = SuperConfig::new().with_debug_verbosity().with_defaults_string(DEFAULT_CONFIG);

    assert_eq!(config.verbosity(), VerbosityLevel::Debug);

    let config = SuperConfig::new().with_trace_verbosity().with_defaults_string(DEFAULT_CONFIG);

    assert_eq!(config.verbosity(), VerbosityLevel::Trace);
}

#[test]
fn test_configuration_loading_with_verbosity() {
    let config = SuperConfig::new().with_debug_verbosity().with_defaults_string(DEFAULT_CONFIG);

    let mode: String = config.figment().extract_inner("scanner.mode").expect("Configuration should load successfully");
    let timeout: u32 = config.figment().extract_inner("scanner.timeout").expect("Configuration should load successfully");
    let level: String = config.figment().extract_inner("log.level").expect("Configuration should load successfully");

    assert_eq!(mode, "standard");
    assert_eq!(timeout, 30);
    assert_eq!(level, "info");
}

#[test]
fn test_silent_verbosity_produces_no_output() {
    let config = SuperConfig::new().with_verbosity(SILENT).with_defaults_string(DEFAULT_CONFIG);

    let _mode: String = config.figment().extract_inner("scanner.mode").expect("Configuration should load successfully");

    let debug_messages = config.debug_messages();
    assert!(!debug_messages.is_empty(), "Debug messages should still be collected in silent mode");
}

#[test]
fn debug_messages_of_each_level() {
    let config = SuperConfig::new().with_trace_verbosity().with_defaults_string("a = 1\nb = 2\n");
    let messages = config.debug_messages();
    assert_eq!(messages.len(), 4);
    assert_eq!(messages[0].provider, "verbosity");
    assert_eq!(messages[0].message, "Set verbosity level to: 3");
    assert_eq!(messages[1].provider, "defaults");
    assert_eq!(messages[1].step, Some(1));
    assert_eq!(messages[1].format(), "CONFIG: [1/] Loading embedded default configuration");
    assert_eq!(messages[2].message, "Embedded config: 2 lines, 12 characters");
    assert_eq!(messages[2].level, DEBUG);
    assert_eq!(messages[3].message, "Default config content:\na = 1\nb = 2\n");
    assert_eq!(messages[3].level, TRACE);

    let quiet = SuperConfig::new().with_info_verbosity().with_defaults_string("x = 1");
    assert_eq!(quiet.debug_messages().len(), 2);
    assert_eq!(quiet.debug_messages()[1].level, INFO);
}

#[test]
fn long_defaults_are_previewed() {
    let content = format!("key = \"{}\"", "v".repeat(400));
    let config = SuperConfig::new().with_trace_verbosity().with_defaults_string(&content);
    let last = config.debug_messages().last().unwrap();
    let expected = format!("Default config content:\n{}... ({} chars total)", &content[..300], content.len());
    assert_eq!(last.message, expected);
}

#[test]
fn strings_are_read_by_dotted_key() {
    let config = SuperConfig::new().with_defaults_string(DEFAULT_CONFIG);
    assert_eq!(config.get_string("scanner.mode").unwrap(), "standard");
    assert!(config.get_string("scanner.missing").is_err());
}

#[test]
fn keys_are_found_or_missing() {
    let config = SuperConfig::new().with_defaults_string(DEFAULT_CONFIG);
    assert_eq!(config.has_key("scanner.mode").unwrap(), true);
    assert_eq!(config.has_key("scanner.timeout").unwrap(), true);
    assert_eq!(config.has_key("scanner.missing").unwrap(), false);
    assert_eq!(config.has_key("nothing").unwrap(), false);
}

#[test]
fn later_sources_override_earlier_ones() {
    let config = SuperConfig::new()
        .with_defaults_string("[a]\nx = \"first\"\ny = \"kept\"\n")
        .with_defaults_string("[a]\nx = \"second\"\n");
    assert_eq!(config.get_string("a.x").unwrap(), "second");
    assert_eq!(config.get_string("a.y").unwrap(), "kept");
}

#[test]
fn debug_message_formatting() {
    let m = DebugMessage::new(INFO, "file", "Loading").with_step(2).with_success(true);
    assert_eq!(m.format(), "CONFIG: [2/] Loading ✓");
    let m = DebugMessage::new(SILENT, "file", "quiet").with_success(false);
    assert_eq!(m.format(), "quiet ✗");
    let m = DebugMessage::new(DEBUG, "env", "plain");
    assert_eq!(m.format(), "CONFIG: plain");
}

#[test]
fn collector_records_every_message() {
    let mut config = SuperConfig::new();
    config.debug(INFO, "a", "one");
    config.debug_step(DEBUG, "b", 4, "two");
    config.debug_result(TRACE, "c", "three", false);
    config.debug_step_result(INFO, "d", 5, "four", true);
    let ms = config.debug_messages();
    assert_eq!(ms.len(), 4);
    assert_eq!((ms[1].step, ms[1].success), (Some(4), None));
    assert_eq!((ms[2].step, ms[2].success), (None, Some(false)));
    assert_eq!((ms[3].step, ms[3].success), (Some(5), Some(true)));
}

#[test]
fn environment_reports_and_masks_secrets() {
    let vars = vec![
        ("APP_HOST".to_string(), "localhost".to_string()),
        ("OTHER".to_string(), "x".to_string()),
        ("APP_API_KEY".to_string(), "s3cr3t".to_string()),
        ("APP_DB_Password".to_string(), "pw".to_string()),
    ];
    let config = SuperConfig::new().with_trace_verbosity().with_env("APP_", &vars);
    let ms = config.debug_messages();
    assert_eq!(ms[1].message, "Loading environment variables with prefix: APP_");
    assert_eq!(ms[2].message, "Found 3 environment variables with prefix: APP_");
    assert_eq!(ms[2].success, Some(true));
    assert_eq!(ms[3].message, "  APP_HOST=localhost");
    assert_eq!(ms[4].message, "  APP_API_KEY=***MASKED***");
    assert_eq!(ms[5].message, "  APP_DB_Password=***MASKED***");
    assert_eq!(ms.len(), 6);

    let none = SuperConfig::new().with_debug_verbosity().with_env_ignore_empty("NONEXISTENT_PREFIX_", &vars);
    let ms = none.debug_messages();
    assert_eq!(ms[1].message, "Loading environment variables with prefix: NONEXISTENT_PREFIX_ (ignore empty)");
    assert_eq!(ms[2].message, "No environment variables found with prefix: NONEXISTENT_PREFIX_");
    assert_eq!(ms[2].success, Some(false));
}

#[test]
fn files_report_presence_and_preview() {
    let config = SuperConfig::new().with_trace_verbosity().with_file("conf/app.toml", true, Some("a = 1".to_string()));
    let ms = config.debug_messages();
    assert_eq!(ms[1].format(), "CONFIG: [1/] Loading configuration file: conf/app.toml");
    assert_eq!(ms[2].format(), "CONFIG: [1/] File found: conf/app.toml ✓");
    assert_eq!(ms[3].message, "File content preview: a = 1");

    let missing = SuperConfig::new().with_file_opt(Some("x.json"), false, None);
    assert_eq!(missing.debug_messages()[1].message, "File not found: x.json");
    let nothing = SuperConfig::new().with_file_opt(None, false, None);
    assert!(nothing.debug_messages().is_empty());
}

#[test]
fn hierarchical_report_lists_candidates() {
    let candidates = superconfig::fluent::hierarchical_candidates("myapp", Some("/home/u/.config"));
    assert_eq!(candidates[0], "/etc/myapp/config.toml");
    assert_eq!(candidates[2], "/home/u/.config/myapp/config.toml");
    let checks: Vec<(String, bool)> = candidates.into_iter().map(|c| (c, false)).collect();
    let config = SuperConfig::new().with_debug_verbosity().with_hierarchical_config("myapp", &checks);
    let ms = config.debug_messages();
    assert_eq!(ms[1].message, "Loading hierarchical config for: myapp");
    assert_eq!(ms[2].message, "Checking hierarchical config paths:");
    assert_eq!(ms[3].message, "  - /etc/myapp/config.toml");
    assert_eq!(ms.len(), 3 + 5);
    let fallback = superconfig::fluent::hierarchical_candidates("a", None);
    assert_eq!(fallback[2], "~/.config/<app>/config.toml");
}

#[test]
fn cli_overrides_are_reported() {
    let config = SuperConfig::new().with_trace_verbosity().with_cli_opt(true, Some("{\n  \"port\": 1\n}".to_string()));
    let ms = config.debug_messages();
    assert_eq!(ms.len(), 3);
    assert_eq!(ms[1].format(), "CONFIG: [1/] Loading CLI argument overrides");
    assert_eq!(ms[2].message, "CLI overrides:\n{\n  \"port\": 1\n}");
    assert_eq!(config.step_count(), 1);

    let none = SuperConfig::new().with_debug_verbosity().with_cli_opt(false, None);
    let ms = none.debug_messages();
    assert_eq!(ms[1].format(), "CONFIG: [1/] No CLI arguments provided ✗");
    assert_eq!(ms[1].level, DEBUG);

    let quiet = SuperConfig::new().with_info_verbosity().with_cli_opt(true, Some("{}".to_string()));
    assert_eq!(quiet.debug_messages().len(), 2);
}

#[test]
fn timestamped_constructors_keep_the_time() {
    let now = std::time::Instant::now();
    let m = DebugMessage::new_at(INFO, "p", "hello", now);
    assert_eq!(m.timestamp, now);
    assert_eq!(m.message, "hello");
}

#[test]
fn files_without_extension_try_the_known_ones() {
    assert_eq!(
        extension_candidates_of("config"),
        vec!["config.toml", "config.yaml", "config.yml", "config.json"]
    );
    assert_eq!(resolve_config_file("config", &vec![false, true, false, true]), "config.yaml");
    assert_eq!(resolve_config_file("config", &vec![false, false, false, false]), "config");
    assert_eq!(resolve_config_file("app.json", &vec![true, true, true, true]), "app.json");
    let config = SuperConfig::new().with_debug_verbosity().with_file_as("config", false, None, "config.yaml");
    assert_eq!(config.debug_messages()[2].message, "File not found: config");
}
