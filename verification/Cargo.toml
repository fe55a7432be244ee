[package]
name = "barber-api"
version = "0.1.0"
edition = "2021"
publish = false

[dependencies]
rss = "=2.1.2"
uuid = { version = "=1.29.0", features = ["v4", "v5", "serde"] }
infer = "=0.22.0"
serde = { version = "=1.0.229", features = ["derive"] }
serde_json = "=1.0.154"
schemars = { version = "=0.9.0", features = ["uuid1"] }
aide = { version = "=0.15.1", features = ["axum", "axum-json", "axum-query", "axum-multipart"] }
axum = { version = "=0.8.9", features = ["multipart"] }
tokio = { version = "=1.54.1", features = ["full"] }
reqwest = { version = "=0.13.5", default-features = false, features = ["json", "multipart"] }
bytes = "=1.12.1"
tracing = "=0.1.44"
tracing-subscriber = { version = "=0.3.23", features = ["env-filter"] }
tower-http = { version = "=0.7.1", features = ["trace"] }
async-trait = "=0.1.92"
fastembed = { version = "=7.5.0", default-features = false, features = ["ort-load-dynamic", "hf-hub"] }
