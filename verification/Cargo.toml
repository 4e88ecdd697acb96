[package]
name = "lab_sync"
version = "0.1.0"
edition = "2021"
publish = false

[dependencies]
chrono = "*"
uuid = { version = "*", features = ["v4"] }
tokio = { version = "*", features = ["rt-multi-thread", "macros"] }
axum = "*"
serde = { version = "*", features = ["derive"] }
serde_json = "*"
sqlx = { version = "0.8", features = ["runtime-tokio", "postgres", "chrono"] }
google-sheets4 = "*"
google-drive3 = "*"
yup-oauth2 = "*"
hyper-rustls = "*"
hyper-util = "*"
http-body-util = "*"
thiserror = "*"
dotenvy = "*"
tracing = "*"
rust_decimal = "*"
reqwest = { version = "*", default-features = false, features = ["json", "rustls-tls"] }
