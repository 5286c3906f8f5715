//! Where an alert goes, decided from the notification settings.

use vstd::prelude::*;
use crate::config::{EmailConfig, NotificationConfig, NotificationType};
use lettre::address::AddressError;
use lettre::message::Mailbox;

verus! {

/// The delivery chosen for an alert.
pub enum NotificationRoute<'a> {
    /// Write the alert to the log as a warning.
    Console,
    /// Post the alert as JSON to this URL.
    Webhook(&'a str),
    /// Webhook delivery was chosen but no URL is configured.
    MissingWebhookUrl,
    /// Mail the alert with these settings.
    Email(&'a EmailConfig),
    /// Email delivery was chosen but no email settings are configured.
    MissingEmailConfig,
}

/// Chooses the delivery of an alert: by the notification type, through the
/// webhook URL or the email settings that the type needs when they are there.
pub fn notification_route<'a>(config: &'a NotificationConfig) -> (r: NotificationRoute<'a>)
    ensures
        match config.notification_type {
            NotificationType::Console => r is Console,
            NotificationType::Webhook => match config.webhook_url {
                Some(url) => r matches NotificationRoute::Webhook(u) && u@ == url@,
                None => r is MissingWebhookUrl,
            },
            NotificationType::Email => match config.email_config {
                Some(email) => r matches NotificationRoute::Email(e) && *e == email,
                None => r is MissingEmailConfig,
            },
        },
{
    match config.notification_type {
        NotificationType::Console => NotificationRoute::Console,
        NotificationType::Webhook => match &config.webhook_url {
            Some(url) => NotificationRoute::Webhook(url.as_str()),
            None => NotificationRoute::MissingWebhookUrl,
        },
        NotificationType::Email => match &config.email_config {
            Some(email) => NotificationRoute::Email(email),
            None => NotificationRoute::MissingEmailConfig,
        },
    }
}

/// The subject line of alert emails.
pub fn alert_subject() -> (r: &'static str)
    ensures
        r@ == "System Monitor Alert!"@,
{
    "System Monitor Alert!"
}

#[verifier::external_type_specification]
#[verifier::external_body]
pub struct ExMailbox(lettre::message::Mailbox);

#[verifier::external_type_specification]
#[verifier::external_body]
pub struct ExAddressError(lettre::address::AddressError);

/// The mailbox that lettre's `Mailbox::from_str` reads from `s`, if it reads
/// one: an address, optionally with a display name, parsed and checked.
pub uninterp spec fn parsed_mailbox(s: Seq<char>) -> Option<Mailbox>;

/// Whether lettre reads `s` as a mailbox.
pub open spec fn is_mailbox(s: Seq<char>) -> bool {
    parsed_mailbox(s) is Some
}

/// Calls lettre's `Mailbox::from_str`, a parse and check of the string
/// alone; the claim is that it succeeds exactly when `parsed_mailbox` of the
/// string is a mailbox, and then gives that mailbox. Nothing is claimed of
/// which error comes back.
#[verifier::external_body]
fn parse_mailbox(s: &str) -> (r: Result<Mailbox, AddressError>)
    ensures
        r is Ok <==> parsed_mailbox(s@) is Some,
        r matches Ok(m) ==> parsed_mailbox(s@) == Some(m),
{
    s.parse::<Mailbox>()
}

/// Why an alert email cannot be addressed, with lettre's reason.
#[derive(Debug)]
pub enum EmailSetupError {
    /// The sender address does not read as a mailbox.
    InvalidFrom(AddressError),
    /// The recipient address does not read as a mailbox.
    InvalidRecipient(AddressError),
}

/// The sender and recipient mailboxes of an alert email, in that order,
/// read from the sender and recipient addresses of the email settings; the
/// sender is checked first.
pub fn email_setup(config: &EmailConfig) -> (r: Result<(Mailbox, Mailbox), EmailSetupError>)
    ensures
        !is_mailbox(config.from_address@) ==> r matches Err(EmailSetupError::InvalidFrom(_)),
        is_mailbox(config.from_address@) && !is_mailbox(config.recipient@) ==> r matches Err(
            EmailSetupError::InvalidRecipient(_),
        ),
        is_mailbox(config.from_address@) && is_mailbox(config.recipient@) ==> r is Ok,
        r matches Ok((from, to)) ==> parsed_mailbox(config.from_address@) == Some(from)
            && parsed_mailbox(config.recipient@) == Some(to),
{
    let from = match parse_mailbox(config.from_address.as_str()) {
        Ok(m) => m,
        Err(e) => {
            return Err(EmailSetupError::InvalidFrom(e));
        },
    };
    let to = match parse_mailbox(config.recipient.as_str()) {
        Ok(m) => m,
        Err(e) => {
            return Err(EmailSetupError::InvalidRecipient(e));
        },
    };
    Ok((from, to))
}

impl EmailConfig {
    /// The SMTP login, used only when both a username and a password are set.
    pub fn smtp_credentials(&self) -> (r: Option<(&String, &String)>)
        ensures
            match (self.username, self.password) {
                (Some(u), Some(p)) => r matches Some((ru, rp)) && *ru == u && *rp == p,
                _ => r is None,
            },
    {
        match (&self.username, &self.password) {
            (Some(u), Some(p)) => Some((u, p)),
            _ => None,
        }
    }
}

} // verus!
