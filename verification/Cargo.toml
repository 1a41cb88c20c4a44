[package]
name = "url-mp3-core"
version = "0.1.0"
edition = "2021"
publish = false

[dependencies]
dirs = "*"
yt-dlp = "*"
tokio = { version = "1", features = ["macros", "rt-multi-thread", "fs", "io-util", "sync", "net"] }
anyhow = "1"
colored = "*"
dialoguer = "*"
thiserror = "*"
axum = "0.7"
serde = { version = "1", features = ["derive"] }
tokio-stream = "*"
tower-http = { version = "*", features = ["cors"] }
tracing = "*"
tracing-subscriber = { version = "*", features = ["env-filter"] }
