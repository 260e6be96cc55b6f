[package]
name = "ton_faucet"
version = "0.1.0"
edition = "2021"
publish = false

[dependencies]
anyhow = "1"
apalis = { version = "=1.0.0", default-features = false, features = ["limit", "tracing"] }
apalis-sqlite = { version = "=1.0.0", default-features = false, features = ["json", "migrate", "tokio"] }
axum = { version = "0.8", default-features = false, features = ["http1", "json", "macros", "tokio"] }
axum-governor = "1.0.3"
dotenvy = "0.15"
hex = "=0.4.3"
lazy-limit = "1"
moka = { version = "=0.12.16", features = ["sync"] }
num-bigint = "=0.4.8"
rand = "=0.9.5"
reqwest = { version = "0.12", default-features = false, features = ["json", "rustls-tls"] }
serde = { version = "1", features = ["derive"] }
serde_json = "=1.0.154"
sha2 = "=0.10.9"
sqlx = { version = "0.9", default-features = false, features = ["json", "macros", "migrate", "runtime-tokio", "sqlite"] }
tokio = { version = "1", features = ["macros", "net", "rt-multi-thread", "signal", "time"] }
tonlib-core = "=0.26.11"
tower = "0.5"
tracing = "0.1"
tracing-subscriber = "0.3"
