[package]
name = "blocklist"
version = "0.1.0"
edition = "2021"
publish = false

[dependencies]
ipnetwork = { version = "*", features = ["serde"] }
diesel = { version = "*", features = ["postgres_backend", "network-address"] }
diesel-async = { version = "*", features = ["bb8", "postgres"] }
axum = "*"
tokio = { version = "*", features = ["macros", "rt-multi-thread", "net"] }
clap = { version = "*", features = ["derive", "env"] }
dotenvy = "*"
tower-http = { version = "*", features = ["fs"] }
tracing = "*"
tracing-subscriber = { version = "*", features = ["env-filter"] }
log = "*"
serde = { version = "*", features = ["derive"] }
thiserror = "*"
