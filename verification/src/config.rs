//! The monitor's configuration: what it watches, how often, and how it sends
//! its alerts.

use vstd::prelude::*;
use vstd::string::*;
use crate::text::{ascii_lowercase, is_float_literal, lowercase, text_eq, to_lowercase};
use vstd::utf8::is_ascii_chars;

verus! {

/// How alerts are delivered.
#[derive(Clone, Copy, Debug, PartialEq, Eq, Structural)]
pub enum NotificationType {
    Console,
    Webhook,
    Email,
}

/// The optional text of an optional string.
pub open spec fn opt_text(s: Option<String>) -> Option<Seq<char>> {
    match s {
        Some(t) => Some(t@),
        None => None,
    }
}

impl NotificationType {
    /// The name under which the type is shown.
    pub open spec fn display_name(self) -> Seq<char> {
        match self {
            NotificationType::Console => "Console"@,
            NotificationType::Webhook => "Webhook"@,
            NotificationType::Email => "Email"@,
        }
    }

    /// The lowercase name by which the type is read.
    pub open spec fn lowercase_name(self) -> Seq<char> {
        match self {
            NotificationType::Console => "console"@,
            NotificationType::Webhook => "webhook"@,
            NotificationType::Email => "email"@,
        }
    }

    /// The type whose lowercase name is `s`, if any.
    pub open spec fn named(s: Seq<char>) -> Option<NotificationType> {
        if s == "console"@ {
            Some(NotificationType::Console)
        } else if s == "webhook"@ {
            Some(NotificationType::Webhook)
        } else if s == "email"@ {
            Some(NotificationType::Email)
        } else {
            None
        }
    }

    /// The message that rejects an unknown lowercase name `s`.
    pub open spec fn unknown_message(s: Seq<char>) -> Seq<char> {
        "Unknown notification type: "@ + s
    }

    /// The type named by an already lowercased name; an unknown name gives
    /// the message `Unknown notification type: <name>`.
    pub fn from_lowercase(s: &str) -> (r: Result<NotificationType, String>)
        ensures
            match NotificationType::named(s@) {
                Some(t) => r == Ok::<NotificationType, String>(t),
                None => r matches Err(e) && e@ == NotificationType::unknown_message(s@),
            },
            r matches Ok(t) ==> s@ == t.lowercase_name(),
    {
        if text_eq(s, "console") {
            Ok(NotificationType::Console)
        } else if text_eq(s, "webhook") {
            Ok(NotificationType::Webhook)
        } else if text_eq(s, "email") {
            Ok(NotificationType::Email)
        } else {
            Err(String::from_str("Unknown notification type: ").concat(s))
        }
    }

    /// Reads a notification type from its name in any letter case: the name is
    /// lowercased and must then be `console`, `webhook` or `email`.
    pub fn parse(s: &str) -> (r: Result<NotificationType, String>)
        ensures
            match NotificationType::named(lowercase(s@)) {
                Some(t) => r == Ok::<NotificationType, String>(t),
                None => r matches Err(e) && e@ == NotificationType::unknown_message(
                    lowercase(s@),
                ),
            },
            r matches Ok(t) ==> lowercase(s@) == t.lowercase_name(),
    {
        let lower = to_lowercase(s);
        NotificationType::from_lowercase(lower.as_str())
    }

    /// The name under which the type is shown: `Console`, `Webhook` or `Email`.
    pub fn to_string(&self) -> (r: String)
        ensures
            r@ == self.display_name(),
    {
        match self {
            NotificationType::Console => String::from_str("Console"),
            NotificationType::Webhook => String::from_str("Webhook"),
            NotificationType::Email => String::from_str("Email"),
        }
    }
}

/// Each type is read back from the name under which it is shown, as from its
/// lowercase name, and no two types share a name: `parse` of the text of
/// `to_string` gives the same type.
pub proof fn lemma_notification_names_read_back(t: NotificationType, u: NotificationType)
    ensures
        NotificationType::named(lowercase(t.display_name())) == Some(t),
        NotificationType::named(t.lowercase_name()) == Some(t),
        t.display_name() == u.display_name() ==> t == u,
{
    reveal_strlit("console");
    reveal_strlit("webhook");
    reveal_strlit("email");
    reveal_strlit("Console");
    reveal_strlit("Webhook");
    reveal_strlit("Email");
    assert("console"@[0] != "webhook"@[0]);
    assert("console"@.len() != "email"@.len());
    assert("webhook"@.len() != "email"@.len());
    assert("Console"@[0] != "Webhook"@[0]);
    assert("Console"@.len() != "Email"@.len());
    assert("Webhook"@.len() != "Email"@.len());
    assert(is_ascii_chars(t.display_name()));
    assert(ascii_lowercase("Console"@) =~= "console"@);
    assert(ascii_lowercase("Webhook"@) =~= "webhook"@);
    assert(ascii_lowercase("Email"@) =~= "email"@);
}

/// Only the three lowercase names read as types, each as its own type.
pub proof fn lemma_named_is_lowercase_name(s: Seq<char>, t: NotificationType)
    requires
        NotificationType::named(s) == Some(t),
    ensures
        s == t.lowercase_name(),
{
}

/// Where and how alert emails are sent.
pub struct EmailConfig {
    pub recipient: String,
    pub smtp_server: String,
    pub smtp_port: u16,
    pub username: Option<String>,
    pub password: Option<String>,
    pub from_address: String,
}

/// The settings of alert delivery: the delivery type, and the webhook URL and
/// email settings that the webhook and email types use.
pub struct NotificationConfig {
    pub notification_type: NotificationType,
    pub webhook_url: Option<String>,
    pub email_config: Option<EmailConfig>,
}

/// How often the system is checked, and the usage percentages at which an
/// alert is raised. Each threshold is held as the decimal text of its
/// floating-point value, in the form that `str::parse::<f64>` reads.
pub struct MonitorConfig {
    pub check_interval_seconds: u64,
    pub cpu_threshold_percent: String,
    pub memory_threshold_percent: String,
    pub disk_threshold_percent: String,
}

/// The whole configuration of the monitor.
pub struct Config {
    pub monitor: MonitorConfig,
    pub notifications: NotificationConfig,
}

/// The value of an [`EmailConfig`], its strings taken as character sequences.
pub struct EmailConfigView {
    pub recipient: Seq<char>,
    pub smtp_server: Seq<char>,
    pub smtp_port: u16,
    pub username: Option<Seq<char>>,
    pub password: Option<Seq<char>>,
    pub from_address: Seq<char>,
}

/// The value of a [`NotificationConfig`].
pub struct NotificationConfigView {
    pub notification_type: NotificationType,
    pub webhook_url: Option<Seq<char>>,
    pub email_config: Option<EmailConfigView>,
}

/// The value of a [`MonitorConfig`].
pub struct MonitorConfigView {
    pub check_interval_seconds: u64,
    pub cpu_threshold_percent: Seq<char>,
    pub memory_threshold_percent: Seq<char>,
    pub disk_threshold_percent: Seq<char>,
}

/// The value of a [`Config`].
pub struct ConfigView {
    pub monitor: MonitorConfigView,
    pub notifications: NotificationConfigView,
}

impl View for EmailConfig {
    type V = EmailConfigView;

    open spec fn view(&self) -> EmailConfigView {
        EmailConfigView {
            recipient: self.recipient@,
            smtp_server: self.smtp_server@,
            smtp_port: self.smtp_port,
            username: opt_text(self.username),
            password: opt_text(self.password),
            from_address: self.from_address@,
        }
    }
}

impl View for NotificationConfig {
    type V = NotificationConfigView;

    open spec fn view(&self) -> NotificationConfigView {
        NotificationConfigView {
            notification_type: self.notification_type,
            webhook_url: opt_text(self.webhook_url),
            email_config: match self.email_config {
                Some(e) => Some(e@),
                None => None,
            },
        }
    }
}

impl View for MonitorConfig {
    type V = MonitorConfigView;

    open spec fn view(&self) -> MonitorConfigView {
        MonitorConfigView {
            check_interval_seconds: self.check_interval_seconds,
            cpu_threshold_percent: self.cpu_threshold_percent@,
            memory_threshold_percent: self.memory_threshold_percent@,
            disk_threshold_percent: self.disk_threshold_percent@,
        }
    }
}

impl View for Config {
    type V = ConfigView;

    open spec fn view(&self) -> ConfigView {
        ConfigView { monitor: self.monitor@, notifications: self.notifications@ }
    }
}

impl MonitorConfigView {
    /// Each threshold is text that `str::parse::<f64>` accepts.
    pub open spec fn thresholds_are_float_literals(self) -> bool {
        &&& is_float_literal(self.cpu_threshold_percent)
        &&& is_float_literal(self.memory_threshold_percent)
        &&& is_float_literal(self.disk_threshold_percent)
    }
}

} // verus!
