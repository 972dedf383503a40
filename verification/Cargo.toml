[package]
name = "studio-core"
version = "0.1.0"
edition = "2021"
publish = false

[dependencies]
aion-context = "*"
axum = "0.8"
keyring = "3"
serde = { version = "1", features = ["derive"] }
serde_json = "1"
thiserror = "2"
tokio = { version = "1", features = ["macros", "rt-multi-thread", "net", "sync"] }
tokio-stream = "0.1"
tower-http = { version = "0.6", features = ["fs"] }
tracing-subscriber = { version = "0.3", features = ["env-filter"] }
ureq = "2"
