[package]
name = "sail"
version = "0.1.0"
edition = "2021"
publish = false

[dependencies]
async-trait = "=0.1.92"
axum = "=0.8.9"
bytes = "=1.12.1"
chrono = "=0.4.45"
datafusion = { version = "=55.2.0", default-features = false }
futures = "=0.3.34"
indexmap = "=2.14.2"
log = "=0.4.35"
object_store = "=0.13.2"
parquet = { version = "=59.3.2", default-features = false, features = ["arrow", "async"] }
rand = "=0.10.3"
serde_json = "=1.0.154"
tokio = { version = "=1.54.1", features = ["full"] }
tonic = "=0.14.9"
url = "=2.5.8"
uuid = { version = "=1.29.0", features = ["v4"] }
