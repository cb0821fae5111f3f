[package]
name = "pg_replicate"
version = "0.1.0"
edition = "2021"
publish = false

[dependencies]
pg_escape = "*"
tokio-postgres = "*"
tokio = { version = "*", features = ["rt"] }
bytes = "*"
tracing = "*"
thiserror = "*"
