[package]
name = "kern"
version = "0.1.0"
edition = "2021"
publish = false

[dependencies]
anyhow = "=1.0.104"
chrono = { version = "=0.4.45", default-features = false, features = ["clock"] }
clap = { version = "=4.6.7", default-features = false, features = ["std", "derive", "help", "usage"] }
nix = { version = "=0.29.0", default-features = false, features = ["signal"] }
notify-rust = { version = "4.18", default-features = false, features = ["z"] }
serde = { version = "=1.0.229", features = ["derive"] }
serde_json = "=1.0.154"
serde_yaml = "=0.9.34"
sysinfo = { version = "0.39", default-features = false, features = ["system"] }
tokio = { version = "=1.54.1", default-features = false, features = ["rt", "macros", "sync", "time"] }
zbus = { version = "5", default-features = false, features = ["tokio"] }
