[package]
name = "fiducia_admin"
version = "0.1.0"
edition = "2021"
publish = false

[dependencies]
axum = { version = "0.7", features = ["ws", "form", "json", "query"] }
base64 = "0.22"
hmac = "0.12"
maud = { version = "0.26", features = ["axum"] }
reqwest = { version = "0.12", default-features = false, features = ["json", "rustls-tls"] }
sea-orm = { version = "1", default-features = false, features = ["macros", "runtime-tokio-rustls", "sqlx-postgres", "with-chrono", "with-json", "with-uuid"] }
serde = { version = "1", features = ["derive"] }
serde_json = "1"
sha2 = "0.10"
tokio = { version = "1", features = ["macros", "rt-multi-thread", "net", "signal", "sync", "time"] }
tower-http = { version = "0.5", features = ["catch-panic", "limit", "timeout", "trace"] }
tracing = "0.1"
uuid = { version = "1", features = ["v4", "serde"] }
