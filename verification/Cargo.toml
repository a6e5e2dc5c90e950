[package]
name = "rorder"
version = "0.1.0"
edition = "2021"
publish = false

[dependencies]
anyhow = "1"
async-trait = "0.1"
chrono = "0.4"
futures = "0.3"
prost-types = "*"
serde = { version = "1", features = ["derive"] }
serde_yaml = "0.9"
sqlx = { version = "*", features = ["postgres", "runtime-tokio", "chrono"] }
thiserror = "*"
tokio = { version = "1", features = ["rt-multi-thread", "macros", "sync"] }
tonic = "*"
