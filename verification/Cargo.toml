[package]
name = "pulse"
version = "0.1.0"
edition = "2021"
publish = false

[dependencies]
regex = "=1.13.1"
ratatui = "=0.29.0"
crossterm = "=0.28.1"
sysinfo = "=0.32.1"
tokio = { version = "=1.54.1", features = ["macros", "rt-multi-thread"] }
color-eyre = "=0.6.5"
serde = { version = "=1.0.229", features = ["derive"] }
serde_json = "=1.0.154"
toml = "=0.8.23"
chrono = "=0.4.45"
dirs = "=5.0.1"
nix = { version = "=0.29.0", features = ["signal", "process"] }
libloading = "=0.8.9"
