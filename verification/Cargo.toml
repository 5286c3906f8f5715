[package]
name = "system_monitor"
version = "0.1.0"
edition = "2021"
publish = false

[dependencies]
axum = "=0.7.9"
chrono = "=0.4.45"
clap = { version = "=4.6.7", features = ["derive"] }
env_logger = "=0.11.11"
lettre = { version = "=0.11.23", default-features = false, features = ["builder", "hostname", "smtp-transport", "rustls-tls"] }
log = "=0.4.35"
reqwest = { version = "=0.12.28", default-features = false, features = ["blocking", "json", "rustls-tls"] }
serde = { version = "=1.0.229", features = ["derive"] }
serde_json = "=1.0.154"
sysinfo = "=0.30.13"
tokio = { version = "=1.54.1", features = ["macros", "net", "rt-multi-thread"] }
toml = "=0.8.23"
tower-http = { version = "=0.5.2", features = ["fs", "trace"] }
tracing = "=0.1.44"
tracing-subscriber = "=0.3.23"
