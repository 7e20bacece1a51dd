[package]
name = "iceblink_sync"
version = "0.1.0"
edition = "2021"
publish = false

[dependencies]
axum = "0.7"
bon = "3"
jsonwebtoken = "9"
memory-serve = "0.6"
metrics = "0.24"
metrics-exporter-prometheus = { version = "0.16", default-features = false }
reqwest = { version = "0.12", default-features = false, features = ["json", "rustls-tls"] }
serde = { version = "1", features = ["derive"] }
serde_json = "1"
sha2 = "0.10"
sqlx = { version = "0.8", default-features = false, features = ["derive", "migrate", "runtime-tokio", "sqlite"] }
tokio = { version = "1", features = ["full"] }
tower-http = { version = "0.6", features = ["compression-full", "cors", "timeout", "trace"] }
tracing = "0.1"
utoipa = { version = "5", features = ["axum_extras"] }
utoipa-axum = "0.1"
utoipa-swagger-ui = { version = "8", features = ["axum", "vendored"] }
