use system_monitor::config::{EmailConfig, NotificationConfig, NotificationType};
use system_monitor::notify::{alert_subject, email_setup, notification_route, EmailSetupError, NotificationRoute};

fn email() -> EmailConfig {
    EmailConfig {
        recipient: "ops@example.com".to_string(),
        smtp_server: "smtp.example.com".to_string(),
        smtp_port: 587,
        username: Some("monitor".to_string()),
        password: Some("letmein".to_string()),
        from_address: "monitor@example.com".to_string(),
    }
}

fn settings(t: NotificationType, url: Option<&str>, mail: Option<EmailConfig>) -> NotificationConfig {
    NotificationConfig { notification_type: t, webhook_url: url.map(|s| s.to_string()), email_config: mail }
}

#[test]
fn console_route() {
    let c = settings(NotificationType::Console, Some("http://x"), Some(email()));
    assert!(matches!(notification_route(&c), NotificationRoute::Console));
}

#[test]
fn webhook_routes() {
    let c = settings(NotificationType::Webhook, Some("http://localhost:5000/webhook"), None);
    match notification_route(&c) {
        NotificationRoute::Webhook(url) => assert_eq!(url, "http://localhost:5000/webhook"),
        _ => panic!("expected the webhook route"),
    }
    let c = settings(NotificationType::Webhook, None, Some(email()));
    assert!(matches!(notification_route(&c), NotificationRoute::MissingWebhookUrl));
}

#[test]
fn email_routes() {
    let c = settings(NotificationType::Email, Some("http://x"), Some(email()));
    match notification_route(&c) {
        NotificationRoute::Email(e) => assert_eq!(e.recipient, "ops@example.com"),
        _ => panic!("expected the email route"),
    }
    let c = settings(NotificationType::Email, Some("http://x"), None);
    assert!(matches!(notification_route(&c), NotificationRoute::MissingEmailConfig));
}

#[test]
fn smtp_credentials_need_both_parts() {
    let full = email();
    let (u, p) = full.smtp_credentials().unwrap();
    assert_eq!(u, "monitor");
    assert_eq!(p, "letmein");
    let mut no_password = email();
    no_password.password = None;
    assert!(no_password.smtp_credentials().is_none());
    let mut no_user = email();
    no_user.username = None;
    assert!(no_user.smtp_credentials().is_none());
}

#[test]
fn alert_subject_text() {
    assert_eq!(alert_subject(), "System Monitor Alert!");
}

#[test]
fn email_setup_reads_both_mailboxes() {
    let (from, to) = email_setup(&email()).unwrap();
    assert_eq!(from.email.to_string(), "monitor@example.com");
    assert_eq!(to.email.to_string(), "ops@example.com");
    let mut named = email();
    named.recipient = "Ops Team <ops@example.com>".to_string();
    let (_, to) = email_setup(&named).unwrap();
    assert_eq!(to.name.as_deref(), Some("Ops Team"));
}

#[test]
fn email_setup_checks_the_sender_first() {
    let mut both_bad = email();
    both_bad.from_address = "not an address".to_string();
    both_bad.recipient = "also@@bad".to_string();
    assert!(matches!(email_setup(&both_bad), Err(EmailSetupError::InvalidFrom(_))));
    let mut bad_recipient = email();
    bad_recipient.recipient = "ops.example.com".to_string();
    assert!(matches!(email_setup(&bad_recipient), Err(EmailSetupError::InvalidRecipient(_))));
}
