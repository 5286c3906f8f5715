use system_monitor::config::{Config, MonitorConfig, NotificationConfig, NotificationType};

/// Builds the library's configuration from TOML text, reading the
/// notification type through the library as deserialisation does.
fn config_from_toml(text: &str) -> Config {
    let table: toml::Table = text.parse().expect("Failed to parse config");
    let monitor = table["monitor"].as_table().unwrap();
    let notifications = table["notifications"].as_table().unwrap();
    let threshold = |key: &str| format!("{}", monitor[key].as_float().unwrap());
    Config {
        monitor: MonitorConfig {
            check_interval_seconds: monitor["check_interval_seconds"].as_integer().unwrap() as u64,
            cpu_threshold_percent: threshold("cpu_threshold_percent"),
            memory_threshold_percent: threshold("memory_threshold_percent"),
            disk_threshold_percent: threshold("disk_threshold_percent"),
        },
        notifications: NotificationConfig {
            notification_type: NotificationType::parse(notifications["type"].as_str().unwrap()).unwrap(),
            webhook_url: None,
            email_config: None,
        },
    }
}

#[test]
fn test_valid_config_load() {
    let toml_data = r#"
        [monitor]
        check_interval_seconds = 5
        cpu_threshold_percent = 75.0
        memory_threshold_percent = 65.0
        disk_threshold_percent = 90.0

        [notifications]
        type = "Console"
    "#;

    let config: Config = config_from_toml(toml_data);
    assert_eq!(config.monitor.cpu_threshold_percent.parse::<f64>().unwrap(), 75.0);
    assert_eq!(config.notifications.notification_type.to_string(), "Console");
}
