use panduza_utils::dioxus::logger::LogLevel;
use panduza_utils::dioxus::logger::LoggerBuilder;
use panduza_utils::rand::generate_random_string;
use panduza_utils::rumqtt::broker::listen_addr;
use panduza_utils::rumqtt::client::make_client_id;
use panduza_utils::rumqtt::client::QosLevel;
use panduza_utils::rumqtt::client::RumqttClientSettings;
use panduza_utils::text::decimal_string;

#[test]
fn test_decimal_string_values() {
    assert_eq!(decimal_string(0), "0");
    assert_eq!(decimal_string(7), "7");
    assert_eq!(decimal_string(10), "10");
    assert_eq!(decimal_string(1883), "1883");
    assert_eq!(decimal_string(65535), "65535");
}

#[test]
fn test_listen_addr_format() {
    assert_eq!(listen_addr(&"localhost".to_string(), 1883), "localhost:1883");
    assert_eq!(listen_addr(&"0.0.0.0".to_string(), 8083), "0.0.0.0:8083");
}

#[test]
fn test_filter_string_with_filters() {
    let b = LoggerBuilder::default().with_level(LogLevel::Error).filter_rumqttd().filter_rmcp();
    assert_eq!(b.filter_string(), "error,rumqttd=off,rmcp=off");
}

#[test]
fn test_filter_string_defaults_to_info() {
    let b = LoggerBuilder::default().filter_rumqttd();
    assert_eq!(b.filter_string(), "info,rumqttd=off");
}

#[test]
fn test_filter_string_without_filters() {
    let b = LoggerBuilder::default().with_level(LogLevel::Debug);
    assert_eq!(b.filter_string(), "debug,");
}

#[test]
fn test_level_str_words() {
    assert_eq!(LoggerBuilder::default().with_level(LogLevel::Error).level_str(), "error");
    assert_eq!(LoggerBuilder::default().with_level(LogLevel::Warn).level_str(), "warn");
    assert_eq!(LoggerBuilder::default().with_level(LogLevel::Info).level_str(), "info");
    assert_eq!(LoggerBuilder::default().with_level(LogLevel::Debug).level_str(), "debug");
    assert_eq!(LoggerBuilder::default().with_level(LogLevel::Trace).level_str(), "trace");
    assert_eq!(LoggerBuilder::default().level_str(), "info");
}

#[test]
fn test_builder_collects_filters() {
    let b = LoggerBuilder::default()
        .add_filter("alpha=off")
        .filter_dioxus_core()
        .filter_dioxus_signals()
        .filter_warnings()
        .display_target(true);
    assert_eq!(
        b.filters,
        vec!["alpha=off", "dioxus_core=off", "dioxus_signals=off", "warnings=off"]
    );
    assert!(b.display_target);
    assert!(b.level.is_none());
}

#[test]
fn test_generate_random_string_shape() {
    let s = generate_random_string(5);
    assert_eq!(s.len(), 5);
    assert!(s.chars().all(|c| c.is_ascii_alphanumeric()));
    assert_eq!(generate_random_string(0), "");
    let long = generate_random_string(64);
    assert_eq!(long.len(), 64);
    assert!(long.chars().all(|c| c.is_ascii_alphanumeric()));
}

#[test]
fn test_make_client_id_shape() {
    let id = make_client_id("sensor");
    assert_eq!(id.len(), "sensor".len() + 6);
    assert!(id.starts_with("sensor-"));
    assert!(id["sensor-".len()..].chars().all(|c| c.is_ascii_alphanumeric()));
}

#[test]
fn test_topic_with_prefix() {
    let settings = RumqttClientSettings::new(QosLevel::AtLeastOnce, false, "pza".to_string());
    assert_eq!(settings.topic_with_prefix("status"), "pza/status");
    assert_eq!(settings.qos, QosLevel::AtLeastOnce);
    assert!(!settings.retain);
}
