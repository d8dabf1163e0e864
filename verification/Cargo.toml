[package]
name = "bob-management"
version = "0.1.0"
edition = "2021"
publish = false

[dependencies]
hyper = { version = "0.14", features = ["full"] }
uuid = { version = "1", features = ["v4", "serde"] }
axum = { version = "0.6", features = ["headers"] }
tokio = { version = "1", features = ["full"] }
serde = { version = "1", features = ["derive"] }
serde_json = "1"
futures = "0.3"
tower = "0.4"
tower-http = { version = "0.4", features = ["cors", "fs"] }
tower-sessions = "0.3"
tracing = "0.1"
tracing-subscriber = "0.3"
tracing-appender = "0.2"
file-rotate = "0.7"
clap = { version = "4", features = ["derive", "cargo"] }
serde_yaml = "0.9"
serde_with = "3"
humantime-serde = "1"
error-stack = "0.4"
thiserror = "1"
strum = { version = "0.25", features = ["derive"] }
utoipa = { version = "3", features = ["axum_extras", "yaml"] }
rocket = { version = "0.5", features = ["secrets", "json"] }
rocket_dyn_templates = { version = "0.1", features = ["tera"] }
reqwest = { version = "0.11", default-features = false, features = ["json"] }
log = "0.4"
time = "0.3"
