[package]
name = "rustgistry"
version = "0.1.0"
edition = "2021"
publish = false

[dependencies]
async-trait = "0.1"
axum = "0.5"
base64 = "0.13"
bytes = "1"
clap = { version = "4", features = ["derive"] }
futures = "0.3"
hex = "0.4"
hyper = { version = "0.14", features = ["full"] }
lazy_static = "1"
rusoto_core = { version = "0.48", default-features = false, features = ["rustls"] }
rusoto_s3 = { version = "0.48", default-features = false, features = ["rustls"] }
serde = { version = "1", features = ["derive"] }
serde_json = "1"
sha2 = "0.10"
sync_wrapper = "0.1"
tempfile = "3"
tokio = { version = "1", features = ["full"] }
tokio-util = { version = "0.7", features = ["codec"] }
tower = "0.4"
tower-http = { version = "0.3", features = ["trace", "util", "map-request-body"] }
tracing-subscriber = "0.3"
uuid = { version = "1", features = ["v4"] }
