//! Verified core of a small system monitor: its configuration model, the
//! `key=value` override rules, notification routing and the bounded window of
//! recent metrics kept by the webhook receiver.

pub mod config;
pub mod history;
pub mod notify;
pub mod overrides;
pub mod text;
