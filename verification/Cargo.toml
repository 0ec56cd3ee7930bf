[package]
name = "vrc_osc_manager"
version = "0.1.0"
edition = "2021"
publish = false

[dependencies]
dark-light = "=1.1.1"
sysinfo = "=0.30.13"
chrono = "=0.4.45"
tokio = { version = "=1.53.2", features = ["rt-multi-thread", "sync", "time", "macros"] }
serde = { version = "=1.0.229", features = ["derive"] }
serde_json = "=1.0.151"
toml = "=0.8.23"
reqwest = { version = "0.12", default-features = false }
