[package]
name = "watchmedo"
version = "0.1.0"
edition = "2021"
publish = false

[dependencies]
anyhow = "1"
async-stream = "0.3"
axum = { version = "0.8", default-features = false, features = ["tokio", "http1", "json", "query"] }
clap = { version = "4", default-features = false, features = ["std", "derive", "help", "usage", "error-context"] }
evdev = "0.13"
futures = "0.3"
glob = "0.3"
libp2p = { version = "0.56", features = ["tokio", "tcp", "noise", "yamux", "gossipsub", "request-response", "json", "macros"] }
serde = { version = "1", features = ["derive"] }
serde_json = "1"
sysinfo = { version = "0.35", default-features = false, features = ["system", "disk", "network"] }
tokio = { version = "1", features = ["rt-multi-thread", "macros", "net", "process", "signal", "sync", "time", "io-util"] }
tower-http = { version = "0.6", features = ["cors"] }
tracing = "0.1"
tracing-subscriber = { version = "0.3", features = ["env-filter"] }
