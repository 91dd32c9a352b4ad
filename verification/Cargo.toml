[package]
name = "product_catalog"
version = "0.1.0"
edition = "2021"
publish = false

[dependencies]
chrono = "0.4"
serde = { version = "1", features = ["derive"] }
tokio = { version = "1", features = ["rt-multi-thread", "net", "macros"] }
axum = "0.7"
sqlx = { version = "0.7", features = ["runtime-tokio", "sqlite"] }
tower-http = { version = "0.5", features = ["fs"] }
tracing-subscriber = "0.3"
async-trait = "0.1"
anyhow = "1"
thiserror = "1"
