[package]
name = "ledger"
version = "0.1.0"
edition = "2021"
publish = false

[dependencies]
anyhow = "=1.0.104"
argon2 = "=0.5.3"
axum = { version = "=0.8.9", features = ["multipart"] }
axum-extra = { version = "=0.10.3", features = ["cookie"] }
calamine = "=0.26.1"
chrono = { version = "=0.4.45", default-features = false, features = ["clock", "std", "serde"] }
csv = "=1.4.0"
dotenvy = "=0.15.7"
notify = "=6.1.1"
serde = { version = "=1.0.229", features = ["derive"] }
serde_json = "=1.0.154"
sha2 = "=0.10.9"
sqlx = { version = "=0.8.6", default-features = false, features = ["runtime-tokio", "postgres", "uuid", "chrono", "json", "derive"] }
thiserror = "=1.0.69"
time = "=0.3.55"
tokio = { version = "=1.54.1", features = ["rt-multi-thread", "macros", "fs", "net", "sync"] }
tower-http = { version = "=0.6.11", features = ["cors", "trace"] }
tracing = "=0.1.44"
tracing-subscriber = { version = "=0.3.23", features = ["env-filter", "fmt"] }
uuid = { version = "=1.29.0", features = ["v4", "serde"] }
# not used directly: it holds calamine's own zip dependency to a release that calamine 0.26.1 builds with
zip = { version = "=2.1.6", default-features = false, features = ["deflate"] }
