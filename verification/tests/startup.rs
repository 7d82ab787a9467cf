use ecosystem::startup::{startup_config, summary_line, StartupError};
use ecosystem::{load_config_from, parse_config, Config, LogLevel, Mode, ReadOutcome};

#[test]
fn missing_file_falls_back_to_the_default() {
    let loaded = load_config_from("config.toml", ReadOutcome::Missing);
    assert_eq!(startup_config(loaded, None).unwrap(), Config::default());
}

#[test]
fn other_load_errors_stop_the_start() {
    let loaded = parse_config("port = 0\nmode = \"dev\"\n");
    assert!(matches!(startup_config(loaded, Some("prod")), Err(StartupError::Load(_))));
}

#[test]
fn command_line_mode_overrides_the_file() {
    let loaded = parse_config("port = 9000\nmode = \"dev\"\nlog_level = \"info\"\n");
    let config = startup_config(loaded, Some(" Prod ")).unwrap();
    assert_eq!(
        config,
        Config { port: 9000, mode: Mode::Prod, log_level: Some(LogLevel::Info) }
    );
    let loaded = parse_config("port = 9000\nmode = \"dev\"\n");
    assert!(matches!(startup_config(loaded, Some("qa")), Err(StartupError::Mode(_))));
}

#[test]
fn summary_lines() {
    assert_eq!(summary_line(&Config::default()), "port = 8080, mode = dev, log_level = None");
    let config = Config { port: 443, mode: Mode::Staging, log_level: Some(LogLevel::Info) };
    assert_eq!(summary_line(&config), "port = 443, mode = staging, log_level = Some(Info)");
}
