use system_monitor::config::{Config, MonitorConfig, NotificationConfig, NotificationType};

/// Builds the library's configuration from TOML text, reading the
/// notification type through the library as deserialisation does.
fn config_from_toml(text: &str) -> Config {
    let table: toml::Table = text.parse().expect("Failed to parse config");
    let monitor = table["monitor"].as_table().unwrap();
    let notifications = table["notifications"].as_table().unwrap();
    let threshold = |key: &str| format!("{}", monitor[key].as_float().unwrap());
    Config {
        monitor: MonitorConfig {
            check_interval_seconds: monitor["check_interval_seconds"].as_integer().unwrap() as u64,
            cpu_threshold_percent: threshold("cpu_threshold_percent"),
            memory_threshold_percent: threshold("memory_threshold_percent"),
            disk_threshold_percent: threshold("disk_threshold_percent"),
        },
        notifications: NotificationConfig {
            notification_type: NotificationType::parse(notifications["type"].as_str().unwrap()).unwrap(),
            webhook_url: notifications.get("webhook_url").and_then(|v| v.as_str()).map(|s| s.to_string()),
            email_config: None,
        },
    }
}

#[test]
fn test_load_from_toml_string() {
    let data = r#"
            [monitor]
            check_interval_seconds = 1
            cpu_threshold_percent = 80.0
            memory_threshold_percent = 50.0
            disk_threshold_percent = 95.0

            [notifications]
            type = "Console"
        "#;

    let config: Config = config_from_toml(data);
    assert_eq!(config.monitor.check_interval_seconds, 1);
}

#[test]
fn notification_type_reads_any_case() {
    assert_eq!(NotificationType::parse("Console"), Ok(NotificationType::Console));
    assert_eq!(NotificationType::parse("WEBHOOK"), Ok(NotificationType::Webhook));
    assert_eq!(NotificationType::parse("eMaIl"), Ok(NotificationType::Email));
}

#[test]
fn notification_type_rejects_unknown_names() {
    assert_eq!(NotificationType::parse("Slack"), Err("Unknown notification type: slack".to_string()));
    assert_eq!(NotificationType::parse(" console"), Err("Unknown notification type:  console".to_string()));
    assert_eq!(NotificationType::from_lowercase("Console"), Err("Unknown notification type: Console".to_string()));
    assert_eq!(NotificationType::from_lowercase("webhook"), Ok(NotificationType::Webhook));
}

#[test]
fn notification_type_display_names() {
    assert_eq!(NotificationType::Console.to_string(), "Console");
    assert_eq!(NotificationType::Webhook.to_string(), "Webhook");
    assert_eq!(NotificationType::Email.to_string(), "Email");
}

#[test]
fn notification_type_reads_back_its_display_name() {
    for t in [NotificationType::Console, NotificationType::Webhook, NotificationType::Email] {
        assert_eq!(NotificationType::parse(&t.to_string()), Ok(t));
    }
}
