[package]
name = "dig-key-store"
version = "0.1.0"
edition = "2021"
publish = false

[dependencies]
diesel = { version = "2", default-features = false }
lru = "0.12"
napi = { version = "2", features = ["async"] }
napi-derive = "2"
sqlx = { version = "0.8", default-features = false, features = ["runtime-tokio", "sqlite", "migrate", "derive"] }
thiserror = "2"
tokio = { version = "1", features = ["rt-multi-thread", "time", "sync"] }
