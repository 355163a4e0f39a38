[package]
name = "log_ship"
version = "0.1.0"
edition = "2021"
publish = false

[dependencies]
serde_json = "1"
flate2 = "1"
chrono = "0.4"
syslog_loose = "*"
logfmt = "*"
toml = "*"
tokio = { version = "1", features = ["full"] }
glob = "0.3"
inotify = "*"
anyhow = "1"
