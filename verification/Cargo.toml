[package]
name = "lbry-superpeer"
version = "0.1.0"
edition = "2021"
publish = false

[dependencies]
base64 = "0.22"
hex = "0.4"
sha2 = "0.10"
anyhow = "1"
axum = { version = "0.8", features = ["multipart"] }
clap = { version = "4", default-features = false, features = ["std", "derive", "help", "usage", "error-context"] }
iroh = "*"
serde = { version = "1", features = ["derive"] }
serde_json = "1"
tokio = { version = "1", features = ["full"] }
tower-http = { version = "0.6", features = ["cors", "fs"] }
tracing = "0.1"
tracing-subscriber = { version = "0.3", default-features = false, features = ["fmt", "env-filter"] }
