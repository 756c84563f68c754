[package]
name = "idcat"
version = "0.1.0"
edition = "2021"
publish = false

[dependencies]
anyhow = "=1.0.104"
authzoo = "=0.1.4"
axum = "=0.8.9"
clap = { version = "=4.6.7", features = ["derive"] }
hex = "=0.4.3"
hmac = "=0.13.0"
jsonwebtoken = { version = "=11.1.0", features = ["rust_crypto"] }
reqwest = { version = "=0.13.5", default-features = false, features = ["json", "blocking", "rustls"] }
serde = { version = "=1.0.229", features = ["derive"] }
serde_json = "=1.0.154"
sha2 = "=0.11.1"
thiserror = "=2.0.21"
tokio = { version = "=1.54.1", features = ["full"] }
toml = "=1.1.8"
tower-http = { version = "=0.6.11", features = ["trace"] }
tracing = "=0.1.44"
tracing-subscriber = { version = "=0.3.23", features = ["env-filter", "json"] }
wildmatch = "=2.7.0"

[dev-dependencies]
base64 = "=0.22.1"
rsa = "=0.9.10"
