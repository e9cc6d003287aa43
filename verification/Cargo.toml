[package]
name = "crash_metrics"
version = "0.1.0"
edition = "2021"
publish = false

[dependencies]
anyhow = "1"
argh = "0.1"
cgmath = "0.18"
crossterm = "0.25"
native-dialog = "0.7"
notify = "5"
serde = { version = "1", features = ["derive"] }
serde_json = "1"
tui = "0.19"
