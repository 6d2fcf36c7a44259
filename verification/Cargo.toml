[package]
name = "neopult"
version = "0.1.0"
edition = "2021"
publish = false

[dependencies]
anyhow = "1"
axum = { version = "0.5", features = ["ws"] }
env_logger = "0.9"
futures = "0.3"
log = "0.4"
mlua = { version = "0.8", features = ["lua54", "vendored"] }
nix = "0.24"
rand = "0.8"
serde = { version = "1", features = ["derive"] }
serde_json = "1"
sha2 = "0.10"
tokio = { version = "1", features = ["full"] }
tower-http = { version = "0.3", features = ["fs", "trace"] }
xcb = { version = "1", features = ["randr"] }
