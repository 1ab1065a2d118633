use velora::config::{
    ConfigError, CoreConfig, CoreEnvironment, EnvValue, MediaPolicy, NotificationsPolicy,
    TelemetryPolicy, MEDIA_ENABLED_ENV, TELEMETRY_ENABLED_ENV, TELEMETRY_INTERVAL_ENV,
};
use velora::protocol::{
    DEFAULT_TELEMETRY_INTERVAL_MS, MAX_TELEMETRY_DEVICES, MAX_TELEMETRY_INTERFACES,
    MAX_TELEMETRY_INTERVAL_MS, MIN_TELEMETRY_INTERVAL_MS,
};

#[test]
fn telemetry_policy_uses_the_bounded_default() {
    let policy = TelemetryPolicy::from_interval_text(None).unwrap();
    assert_eq!(policy.interval_ms, u64::from(DEFAULT_TELEMETRY_INTERVAL_MS));
    assert_eq!(policy.max_devices, MAX_TELEMETRY_DEVICES);
    assert_eq!(policy.max_interfaces, MAX_TELEMETRY_INTERFACES);
}

#[test]
fn telemetry_policy_accepts_both_interval_boundaries() {
    for interval_ms in [
        MIN_TELEMETRY_INTERVAL_MS,
        DEFAULT_TELEMETRY_INTERVAL_MS,
        MAX_TELEMETRY_INTERVAL_MS,
    ] {
        let text = interval_ms.to_string();
        let policy = TelemetryPolicy::from_interval_text(Some(&text)).unwrap();
        assert_eq!(policy.interval_ms, u64::from(interval_ms));
    }
}

#[test]
fn telemetry_policy_rejects_too_fast_too_slow_and_malformed_values() {
    for value in ["249", "10001", "fast", ""] {
        assert!(TelemetryPolicy::from_interval_text(Some(value)).is_err());
    }
}

#[test]
fn enabled_env_var_defaults_to_true() {
    let policy = TelemetryPolicy::from_interval_text(None).unwrap();
    assert!(policy.enabled);
}

#[test]
fn enabled_env_var_parses_true_and_false() {
    let text = |v: &str| EnvValue::Text(v.to_owned());
    let policy = TelemetryPolicy::from_env_values(&EnvValue::NotPresent, &text("true")).unwrap();
    assert!(policy.enabled);
    let policy = TelemetryPolicy::from_env_values(&EnvValue::NotPresent, &text("false")).unwrap();
    assert!(!policy.enabled);
    assert_eq!(
        TelemetryPolicy::from_env_values(&EnvValue::NotPresent, &text("maybe")),
        Err(ConfigError::NotABoolean(TELEMETRY_ENABLED_ENV))
    );
}

#[test]
fn notifications_policy_defaults_to_disabled() {
    let policy = NotificationsPolicy::default();
    assert!(!policy.enabled);
}

#[test]
fn notifications_env_var_parses_true_and_false() {
    assert!(!NotificationsPolicy::from_env_value(&EnvValue::NotPresent).unwrap().enabled);
    assert!(!NotificationsPolicy::from_env_value(&EnvValue::Text("false".to_owned()))
        .unwrap()
        .enabled);
    assert!(NotificationsPolicy::from_env_value(&EnvValue::Text("true".to_owned()))
        .unwrap()
        .enabled);
    assert!(NotificationsPolicy::from_env_value(&EnvValue::Text("maybe".to_owned())).is_err());
}

#[test]
fn media_policy_defaults_to_enabled_and_parses_the_environment() {
    assert!(MediaPolicy::from_env_value(&EnvValue::NotPresent).unwrap().enabled);
    assert!(!MediaPolicy::from_env_value(&EnvValue::Text("false".to_owned()))
        .unwrap()
        .enabled);
    assert!(MediaPolicy::from_env_value(&EnvValue::Text("true".to_owned()))
        .unwrap()
        .enabled);
    assert_eq!(
        MediaPolicy::from_env_value(&EnvValue::Text("maybe".to_owned())),
        Err(ConfigError::NotABoolean(MEDIA_ENABLED_ENV))
    );
    assert!(MediaPolicy::default().enabled);
}

#[test]
fn malformed_interval_names_the_variable() {
    assert_eq!(
        TelemetryPolicy::from_interval_text(Some("fast")),
        Err(ConfigError::NotAnInteger(TELEMETRY_INTERVAL_ENV))
    );
    assert_eq!(
        TelemetryPolicy::from_interval_text(Some("249")),
        Err(ConfigError::IntervalOutOfRange(TELEMETRY_INTERVAL_ENV))
    );
    assert_eq!(
        TelemetryPolicy::from_env_values(&EnvValue::NotUnicode, &EnvValue::NotPresent),
        Err(ConfigError::NotUnicode(TELEMETRY_INTERVAL_ENV))
    );
}

#[test]
fn core_config_reads_every_setting() {
    let config = CoreConfig::from_environment(&CoreEnvironment {
        velora_socket: Some("/tmp/velora-test.sock".to_owned()),
        xdg_runtime_dir: None,
        uid: None,
        telemetry_interval: EnvValue::Text("500".to_owned()),
        telemetry_enabled: EnvValue::NotPresent,
        media_enabled: EnvValue::Text("false".to_owned()),
        notifications_enabled: EnvValue::NotPresent,
    })
    .unwrap();
    assert_eq!(config.socket_path, "/tmp/velora-test.sock");
    assert_eq!(config.telemetry.interval_ms, 500);
    assert!(config.telemetry.enabled);
    assert!(!config.media.enabled);
    assert!(!config.notifications.enabled);
}
