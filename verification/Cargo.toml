[package]
name = "stardust_indexer"
version = "0.1.0"
edition = "2021"
publish = false

[dependencies]
anyhow = "1"
axum = "0.7"
bcs = "0.1"
clap = { version = "4", features = ["derive", "env"] }
diesel = { version = "2.2", features = ["sqlite", "r2d2"] }
diesel_migrations = "2.2"
dotenvy = "0.15"
prometheus = "0.13"
serde = { version = "1", features = ["derive"] }
tempfile = "3"
thiserror = "1"
tokio = { version = "1", features = ["full"] }
tokio-util = "0.7"
tower-http = { version = "0.5", features = ["cors"] }
tracing = "0.1"
tracing-subscriber = "0.3"
url = "2"
utoipa = "4"
utoipa-swagger-ui = { version = "7", features = ["axum"] }
