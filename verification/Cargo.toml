[package]
name = "spotify_dl_server"
version = "0.1.0"
edition = "2021"
publish = false

[dependencies]
aspotify = "0.7"
axum = "0.7"
colored = "2"
env_logger = "0.10"
log = "0.4"
rocket = "0.5"
serde_json = "1"
tokio = { version = "1", features = ["full"] }
tower = { version = "0.4", features = ["util"] }
tower-http = { version = "0.5", features = ["fs", "trace"] }
tracing = "0.1"
