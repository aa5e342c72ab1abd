use tune::cli::{parse_port_range, parse_screenshot_size, CliError};
use tune::config::{
    config_root, join_path, lyrics_root, path_recovery_candidates, state_path, stats_path,
    ConfigError,
};

#[test]
fn config_root_follows_xdg_then_home() {
    assert_eq!(config_root(None, None, Some("/xdg"), Some("/home/u")).unwrap(), "/xdg/tunetui");
    assert_eq!(config_root(None, None, None, Some("/home/u")).unwrap(), "/home/u/.config/tunetui");
    assert_eq!(config_root(None, None, Some("  "), Some("/home/u")).unwrap(), "/home/u/.config/tunetui");
    assert_eq!(config_root(Some("/d"), None, Some("/xdg"), Some("/home/u")).unwrap(), "/d");
    assert_eq!(config_root(None, None, None, Some("")), Err(ConfigError::MissingHomeDirectory));
}

#[test]
fn config_root_takes_any_set_user_profile() {
    assert_eq!(config_root(None, Some(""), None, Some("/home/u")).unwrap(), ".config/tunetui");
    assert_eq!(config_root(None, Some("C:\\Users\\u"), None, Some("/home/u")).unwrap(), "C:\\Users\\u/.config/tunetui");
}

#[test]
fn config_root_prefers_override_then_user_profile() {
    assert_eq!(config_root(Some("/custom"), Some("/home/u"), None, None).unwrap(), "/custom");
    assert_eq!(config_root(None, Some("/home/u"), None, None).unwrap(), "/home/u/.config/tunetui");
    assert_eq!(config_root(None, None, None, None), Err(ConfigError::MissingHomeDirectory));
    assert_eq!(state_path("/c"), "/c/state.json");
    assert_eq!(stats_path("/c/"), "/c/stats.json");
    assert_eq!(lyrics_root(""), "lyrics");
    assert_eq!(join_path("C:\\cfg\\", "x"), "C:\\cfg\\x");
    let candidates = path_recovery_candidates("• A\u{200B}B");
    assert_eq!(candidates, vec![String::from("• A\u{200B}B"), String::from("• AB"), String::from("A\u{200B}B")]);
}

#[test]
fn cli_value_errors_name_their_cause() {
    assert_eq!(parse_port_range("9000"), Err(CliError::PortRangeFormat));
    assert_eq!(parse_port_range("x-9000"), Err(CliError::InvalidStartPort));
    assert_eq!(parse_port_range("9000-70000"), Err(CliError::InvalidEndPort));
    assert_eq!(parse_port_range("0-10"), Err(CliError::PortOutOfRange));
    assert_eq!(parse_port_range("10-9"), Err(CliError::PortRangeOrder));
    assert_eq!(parse_port_range(" 1 - +2 "), Ok((1, 2)));
    assert_eq!(parse_screenshot_size("120"), Err(CliError::ScreenshotSizeFormat));
    assert_eq!(parse_screenshot_size("ax20"), Err(CliError::InvalidScreenshotColumns));
    assert_eq!(parse_screenshot_size("80x"), Err(CliError::InvalidScreenshotRows));
    assert_eq!(parse_screenshot_size("59x20"), Err(CliError::ScreenshotTooSmall));
    assert_eq!(parse_screenshot_size("60X20"), Ok((60, 20)));
}
