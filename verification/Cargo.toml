[package]
name = "nzbdav"
version = "0.1.0"
edition = "2021"
publish = false

[dependencies]
regex = "1"
glob = "0.3"
uuid = { version = "1", features = ["v4", "v5"] }
mime_guess = "2"
quick-xml = "0.37"
chrono = "0.4"
percent-encoding = "2"
base64 = "0.22"
serde = { version = "1", features = ["derive"] }
serde_json = "1"
axum = { version = "0.8", features = ["multipart", "ws"] }
tokio = { version = "1", features = ["full"] }
tokio-util = { version = "0.7", features = ["io"] }
tower = { version = "0.5", features = ["util"] }
tower-http = { version = "0.6", features = ["normalize-path"] }
tracing = "0.1"
tracing-subscriber = { version = "0.3", features = ["env-filter"] }
clap = { version = "4", features = ["derive", "env"] }
anyhow = "1"
thiserror = "2"
bincode = "1"
parking_lot = "0.12"
rusqlite = { version = "0.32", features = ["bundled", "backup"] }
reqwest = { version = "0.12", default-features = false, features = ["json"] }
rust-embed = "8"
http = "1"
async-trait = "0.1"
nzb-core = "*"
nzb-nntp = "*"
