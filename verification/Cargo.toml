[package]
name = "semcache"
version = "0.1.0"
edition = "2021"
publish = false

[dependencies]
lru = "=0.19.0"
faiss = "=0.13.0"
url = "=2.5.8"
serde = { version = "=1.0.229", features = ["derive"] }
serde_json = "=1.0.154"
jsonpath-rust = "=1.0.12"
thiserror = "=2.0.21"
tracing = "=0.1.44"
tracing-subscriber = { version = "=0.3.23", features = ["env-filter"] }
axum = "=0.8.9"
tokio = { version = "=1.54.1", features = ["full"] }
tower-http = { version = "=0.7.1", features = ["fs"] }
reqwest = { version = "=0.13.5", features = ["json"] }
prometheus = "=0.14.0"
chrono = { version = "=0.4.45", features = ["serde"] }
askama = "=0.16.1"
async-trait = "=0.1.92"
config = { version = "=0.15.27", default-features = false, features = ["yaml", "convert-case"] }
fastembed = { version = "=7.5.0", default-features = false, features = ["ort-load-dynamic", "hf-hub-native-tls"] }
