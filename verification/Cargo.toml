[package]
name = "planpool"
version = "0.1.0"
edition = "2021"
publish = false

[dependencies]
anyhow = "=1.0.104"
axum = "=0.8.9"
clap = { version = "=4.6.7", features = ["derive"] }
clap_complete = "=4.6.11"
confroid = { version = "=0.0.5", features = ["humantime", "bytesize", "docs"] }
humantime = "=2.4.0"
open = "=5.4.5"
rand = "=0.9.5"
serde = { version = "=1.0.229", features = ["derive"] }
serde_json = "=1.0.154"
subtle = "=2.6.1"
tokio = { version = "=1.54.1", features = ["rt-multi-thread", "macros", "fs", "net", "signal", "time"] }
tracing = "=0.1.44"
tracing-subscriber = { version = "=0.3.23", features = ["env-filter"] }
ureq = { version = "=3.5.1", features = ["json"] }
utoipa = { version = "=5.5.0", features = ["axum_extras"] }
utoipa-axum = "=0.2.0"
utoipa-scalar = { version = "=0.3.0", features = ["axum"] }
