[package]
name = "openbao-certificate-client"
version = "0.1.0"
edition = "2021"
publish = false

[dependencies]
axum = "0.8"
base64 = "=0.22.1"
hex = "=0.4.3"
jsonwebtoken = "9"
open = "5"
pem = "=3.0.6"
rand = "0.8"
reqwest = { version = "0.12", default-features = false, features = ["json", "rustls-tls"] }
rsa = "0.9"
secrecy = { version = "0.10", features = ["serde"] }
semver = "=1.0.28"
serde = { version = "1", features = ["derive"] }
serde_json = "1"
sha1 = "=0.10.7"
sha2 = "=0.10.9"
tempfile = "3"
thiserror = "2"
tokio = { version = "1", features = ["macros", "net", "rt-multi-thread", "sync", "time"] }
tokio-util = "0.7"
tracing = "0.1"
tracing-subscriber = { version = "0.3", features = ["env-filter"] }
url = { version = "2", features = ["serde"] }
uuid = { version = "1", features = ["v4"] }
x509-parser = { version = "0.18", features = ["verify"] }
