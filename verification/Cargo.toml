[package]
name = "grok2api"
version = "0.1.0"
edition = "2021"
publish = false

[dependencies]
async-trait = "0.1"
aws-credential-types = { version = "1", features = ["hardcoded-credentials"] }
aws-sdk-s3 = { version = "1", default-features = false, features = ["behavior-version-latest", "rt-tokio"] }
axum = { version = "0.7", features = ["multipart"] }
base64 = "0.22"
bytes = "1"
chrono = { version = "0.4", default-features = false, features = ["clock"] }
fs2 = "0.4"
mime_guess = "2"
once_cell = "1"
reqwest = { version = "0.12", default-features = false }
serde = { version = "1", features = ["derive"] }
serde_json = "1"
sha1 = "0.10"
tokio = { version = "1", features = ["fs", "io-util", "process", "sync", "time", "rt", "macros"] }
toml = "0.8"
tracing = "0.1"
url = "2"
urlencoding = "2"
uuid = { version = "1", features = ["v4"] }
