use system_monitor::config::{Config, MonitorConfig, NotificationConfig, NotificationType};
use system_monitor::overrides::{apply_override, apply_overrides, split_override, OverrideOutcome};

fn sample_config() -> Config {
    Config {
        monitor: MonitorConfig {
            check_interval_seconds: 5,
            cpu_threshold_percent: "75".to_string(),
            memory_threshold_percent: "65".to_string(),
            disk_threshold_percent: "90".to_string(),
        },
        notifications: NotificationConfig {
            notification_type: NotificationType::Console,
            webhook_url: Some("http://localhost:5000/webhook".to_string()),
            email_config: None,
        },
    }
}

fn strings(items: &[&str]) -> Vec<String> {
    items.iter().map(|s| s.to_string()).collect()
}

#[test]
fn override_sets_notification_type_in_any_case() {
    let mut config = sample_config();
    assert_eq!(apply_override(&mut config, "notifications.type=WebHook"), OverrideOutcome::NotificationTypeSet);
    assert_eq!(config.notifications.notification_type, NotificationType::Webhook);
    assert_eq!(apply_override(&mut config, "notifications.type= EMAIL "), OverrideOutcome::NotificationTypeSet);
    assert_eq!(config.notifications.notification_type, NotificationType::Email);
}

#[test]
fn override_lowercases_by_unicode_rules() {
    // U+212A KELVIN SIGN lowercases to an ASCII 'k'.
    let mut config = sample_config();
    assert_eq!(apply_override(&mut config, "notifications.type=WEBHOO\u{212A}"), OverrideOutcome::NotificationTypeSet);
    assert_eq!(config.notifications.notification_type, NotificationType::Webhook);
}

#[test]
fn override_rejects_unknown_notification_type() {
    let mut config = sample_config();
    assert_eq!(apply_override(&mut config, "notifications.type=pager"), OverrideOutcome::UnknownNotificationType);
    assert_eq!(config.notifications.notification_type, NotificationType::Console);
}

#[test]
fn override_sets_check_interval() {
    let mut config = sample_config();
    assert_eq!(
        apply_override(&mut config, "monitor.check_interval_seconds = 30"),
        OverrideOutcome::CheckIntervalSet(30)
    );
    assert_eq!(config.monitor.check_interval_seconds, 30);
    assert_eq!(
        apply_override(&mut config, "monitor.check_interval_seconds=+7"),
        OverrideOutcome::CheckIntervalSet(7)
    );
    assert_eq!(config.monitor.check_interval_seconds, 7);
}

#[test]
fn override_rejects_bad_check_interval() {
    let mut config = sample_config();
    for bad in ["monitor.check_interval_seconds=-3", "monitor.check_interval_seconds=ten",
                "monitor.check_interval_seconds=", "monitor.check_interval_seconds=18446744073709551616",
                "monitor.check_interval_seconds=1.5"] {
        assert_eq!(apply_override(&mut config, bad), OverrideOutcome::InvalidCheckInterval, "{}", bad);
    }
    assert_eq!(config.monitor.check_interval_seconds, 5);
    assert_eq!(
        apply_override(&mut config, "monitor.check_interval_seconds=18446744073709551615"),
        OverrideOutcome::CheckIntervalSet(u64::MAX)
    );
}

#[test]
fn override_sets_thresholds() {
    let mut config = sample_config();
    assert_eq!(apply_override(&mut config, "monitor.cpu_threshold_percent=90.5"), OverrideOutcome::CpuThresholdSet);
    assert_eq!(config.monitor.cpu_threshold_percent, "90.5");
    assert_eq!(config.monitor.cpu_threshold_percent.parse::<f64>().unwrap(), 90.5);
    assert_eq!(apply_override(&mut config, "monitor.memory_threshold_percent=\t.5e2 "), OverrideOutcome::MemoryThresholdSet);
    assert_eq!(config.monitor.memory_threshold_percent, ".5e2");
    assert_eq!(apply_override(&mut config, "monitor.disk_threshold_percent=99"), OverrideOutcome::DiskThresholdSet);
    assert_eq!(config.monitor.disk_threshold_percent, "99");
}

#[test]
fn override_rejects_bad_thresholds() {
    let mut config = sample_config();
    assert_eq!(apply_override(&mut config, "monitor.cpu_threshold_percent=high"), OverrideOutcome::InvalidCpuThreshold);
    assert_eq!(apply_override(&mut config, "monitor.memory_threshold_percent=5%"), OverrideOutcome::InvalidMemoryThreshold);
    assert_eq!(apply_override(&mut config, "monitor.disk_threshold_percent=1e"), OverrideOutcome::InvalidDiskThreshold);
    assert_eq!(config.monitor.cpu_threshold_percent, "75");
    assert_eq!(config.monitor.memory_threshold_percent, "65");
    assert_eq!(config.monitor.disk_threshold_percent, "90");
}

#[test]
fn override_without_separator_is_malformed() {
    let mut config = sample_config();
    assert_eq!(apply_override(&mut config, "monitor.check_interval_seconds"), OverrideOutcome::Malformed);
    assert_eq!(apply_override(&mut config, ""), OverrideOutcome::Malformed);
    assert_eq!(config.monitor.check_interval_seconds, 5);
}

#[test]
fn override_with_unknown_key_changes_nothing() {
    let mut config = sample_config();
    assert_eq!(apply_override(&mut config, "monitor.swap_threshold_percent=10"), OverrideOutcome::UnknownKey);
    assert_eq!(apply_override(&mut config, "Monitor.Check_Interval_Seconds=10"), OverrideOutcome::UnknownKey);
    assert_eq!(config.monitor.check_interval_seconds, 5);
}

#[test]
fn split_override_takes_first_separator_and_trims() {
    assert_eq!(split_override("  a = b=c  "), Some(("a", "b=c")));
    assert_eq!(split_override("key="), Some(("key", "")));
    assert_eq!(split_override("=value"), Some(("", "value")));
    assert_eq!(split_override("\u{3000}k\u{00A0}=\nv\t"), Some(("k", "v")));
    assert_eq!(split_override("no separator"), None);
}

#[test]
fn overrides_apply_in_order_and_report_each() {
    let mut config = sample_config();
    let outcomes = apply_overrides(
        &mut config,
        &strings(&[
            "monitor.check_interval_seconds=10",
            "bogus",
            "monitor.check_interval_seconds=20",
            "notifications.type=email",
            "unknown.key=1",
            "monitor.cpu_threshold_percent=nope",
        ]),
    );
    assert_eq!(
        outcomes,
        vec![
            OverrideOutcome::CheckIntervalSet(10),
            OverrideOutcome::Malformed,
            OverrideOutcome::CheckIntervalSet(20),
            OverrideOutcome::NotificationTypeSet,
            OverrideOutcome::UnknownKey,
            OverrideOutcome::InvalidCpuThreshold,
        ]
    );
    assert_eq!(config.monitor.check_interval_seconds, 20);
    assert_eq!(config.notifications.notification_type, NotificationType::Email);
    assert_eq!(config.monitor.cpu_threshold_percent, "75");
}

#[test]
fn overrides_compose_on_concrete_lists() {
    let a = strings(&["monitor.disk_threshold_percent=80", "notifications.type=webhook"]);
    let b = strings(&["monitor.disk_threshold_percent=85", "monitor.check_interval_seconds=3"]);
    let mut one = sample_config();
    apply_overrides(&mut one, &a);
    apply_overrides(&mut one, &b);
    let mut both = sample_config();
    let mut ab = a.clone();
    ab.extend(b.iter().cloned());
    apply_overrides(&mut both, &ab);
    assert_eq!(one.monitor.disk_threshold_percent, both.monitor.disk_threshold_percent);
    assert_eq!(one.monitor.check_interval_seconds, both.monitor.check_interval_seconds);
    assert_eq!(one.notifications.notification_type, both.notifications.notification_type);
    assert_eq!(both.monitor.disk_threshold_percent, "85");
}

#[test]
fn repeated_override_acts_once() {
    let mut once = sample_config();
    let first = apply_override(&mut once, "monitor.cpu_threshold_percent=12.5");
    let second = apply_override(&mut once, "monitor.cpu_threshold_percent=12.5");
    assert_eq!(first, second);
    assert_eq!(once.monitor.cpu_threshold_percent, "12.5");
}

#[test]
fn overrides_keep_delivery_targets() {
    let mut config = sample_config();
    apply_overrides(&mut config, &strings(&["notifications.type=email", "notifications.webhook_url=x"]));
    assert_eq!(config.notifications.webhook_url.as_deref(), Some("http://localhost:5000/webhook"));
    assert!(config.notifications.email_config.is_none());
}

#[test]
fn overridden_thresholds_stay_readable() {
    let mut config = sample_config();
    apply_overrides(
        &mut config,
        &strings(&["monitor.cpu_threshold_percent=-inf", "monitor.memory_threshold_percent=NaN", "monitor.disk_threshold_percent=1E+2"]),
    );
    for t in [&config.monitor.cpu_threshold_percent, &config.monitor.memory_threshold_percent, &config.monitor.disk_threshold_percent] {
        assert!(t.parse::<f64>().is_ok(), "{}", t);
    }
}
