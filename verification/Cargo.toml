[package]
name = "studio-core"
version = "0.1.0"
edition = "2021"
publish = false

[dependencies]
base64 = "0.22"
qrcode = { version = "0.14", default-features = false, features = ["svg"] }
sha2 = "0.10"
serde = { version = "1", features = ["derive"] }
serde_json = "1"
axum = "0.8"
tokio = { version = "1", features = ["full"] }
tower-http = { version = "0.6", features = ["normalize-path", "trace"] }
tracing = "0.1"
tracing-subscriber = { version = "0.3", features = ["env-filter", "local-time"] }
dotenvy = "0.15"
owo-colors = "4"
reqwest = { version = "0.12", default-features = false, features = ["blocking", "rustls-tls"] }
uuid = { version = "1", features = ["v4"] }
moka = { version = "0.12", features = ["sync"] }
lopdf = "*"
