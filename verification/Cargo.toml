[package]
name = "pocketserver"
version = "0.1.0"
edition = "2021"
publish = false

[dependencies]
toml = "0.8"
network-interface = "*"
uuid = { version = "1", features = ["v4", "serde"] }
serde = { version = "1", features = ["derive"] }
serde_json = "1"
anyhow = "1"
tokio = { version = "1", features = ["full"] }
axum = "0.7"
tower-http = { version = "0.5", features = ["cors", "trace", "fs"] }
reqwest = { version = "0.12", default-features = false, features = ["json", "rustls-tls"] }
tracing = "0.1"
tracing-subscriber = { version = "0.3", features = ["env-filter"] }
directories = "5"
log = "0.4"
jni = "0.21"
ndk-context = "0.1"
