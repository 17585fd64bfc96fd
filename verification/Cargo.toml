[package]
name = "share_feed"
version = "0.1.0"
edition = "2021"
publish = false

[dependencies]
bytes = "1"
mime_guess = "2"
axum = { version = "0.6", features = ["ws"] }
tokio = { version = "1", features = ["full"] }
futures = "0.3"
clap = { version = "4", features = ["derive"] }
home = "0.5"
tower-http = { version = "0.4", features = ["fs"] }
tracing = "0.1"
tracing-subscriber = { version = "0.3", features = ["env-filter"] }
