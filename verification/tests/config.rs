use restart_that_thang::configuration::{Config, ConfigError};
use restart_that_thang::Application;

#[test]
fn defaults_apply_when_unset() {
    let c = Config::from_values(None, None, None, None).unwrap();
    assert_eq!(c.host, "127.0.0.1");
    assert_eq!(c.port, "8080");
    assert_eq!(c.polling_interval, 30);
    assert_eq!(c.startup_delay, 30);
}

#[test]
fn set_values_are_read() {
    let c = Config::from_values(
        Some("0.0.0.0".to_string()),
        Some("9000".to_string()),
        Some("5".to_string()),
        Some("0".to_string()),
    )
    .unwrap();
    assert_eq!(c.host, "0.0.0.0");
    assert_eq!(c.port, "9000");
    assert_eq!(c.polling_interval, 5);
    assert_eq!(c.startup_delay, 0);
}

#[test]
fn invalid_numbers_are_errors() {
    assert_eq!(
        Config::from_values(None, None, Some("five".to_string()), Some("x".to_string())).unwrap_err(),
        ConfigError::InvalidPollingInterval
    );
    assert_eq!(
        Config::from_values(None, None, None, Some("-1".to_string())).unwrap_err(),
        ConfigError::InvalidStartupDelay
    );
    assert_eq!(ConfigError::InvalidStartupDelay.message(), "Failed to parse 'STARTUP_DELAY'");
}

#[test]
fn application_binds_host_and_port() {
    let c = Config::from_values(Some("127.0.0.1".to_string()), Some("8081".to_string()), None, Some("3".to_string())).unwrap();
    let app = Application::build(c);
    assert_eq!(app.bind_address(), "127.0.0.1:8081");
    assert_eq!(app.startup_delay_secs(), 3);
    assert_eq!(app.polling_interval_secs(), 30);
    assert!(app.state.containers.is_empty());
}
