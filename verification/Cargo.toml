[package]
name = "geohog"
version = "0.1.0"
edition = "2021"
publish = false

[dependencies]
anyhow = "=1.0.104"
clap = { version = "=4.6.7", features = ["derive"] }
crossterm = "=0.27.0"
ratatui = "=0.26.3"
tokio = { version = "=1.54.1", features = ["full"] }
tracing = "=0.1.44"
tracing-subscriber = { version = "=0.3.23", features = ["env-filter", "time", "local-time"] }
time = { version = "=0.3.55", features = ["macros", "local-offset", "formatting"] }
netstat2 = "=0.11.2"
sysinfo = "=0.30.13"
procfs = "=0.16.0"
reqwest = { version = "=0.11.27", default-features = false, features = ["json"] }
serde = { version = "=1.0.229", features = ["derive"] }
shapefile = "=0.6.0"
itertools = "=0.12.1"
public-ip = "=0.2.2"
