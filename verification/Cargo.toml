[package]
name = "oracles"
version = "0.1.0"
edition = "2021"
publish = false

[dependencies]
http = "=0.2.12"
helium-crypto = "=0.11.0"
k256 = { version = "=0.13.4", default-features = false, features = ["arithmetic", "ecdsa"] }
base64 = "=0.13.1"
async-compression = { version = "=0.3.15", features = ["tokio", "gzip"] }
tokio = { version = "=1.54.1", features = ["full"] }
futures = "=0.3.34"
futures-util = "=0.3.34"
tokio-util = { version = "=0.7.20", features = ["codec"] }
tokio-stream = "=0.1.19"
chrono = "=0.4.45"
clap = { version = "=4.6.7", features = ["derive"] }
serde = { version = "=1.0.229", features = ["derive"] }
tracing = "=0.1.44"
tracing-subscriber = { version = "=0.3.23", features = ["env-filter"] }
dotenv = "=0.15.0"
triggered = "=0.1.3"
tonic = "=0.8.3"
axum = "=0.5.17"
hyper = { version = "=0.14.32", features = ["full"] }
aws-config = "=0.47.0"
aws-sdk-s3 = "=0.17.0"
