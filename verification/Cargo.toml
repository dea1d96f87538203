[package]
name = "chain_indexer"
version = "0.1.0"
edition = "2021"
publish = false

[dependencies]
tokio = { version = "*", features = ["rt-multi-thread", "macros", "time"] }
sqlx = { version = "*", default-features = false, features = ["runtime-tokio", "postgres", "json"] }
redis = { version = "*", default-features = false, features = ["tokio-comp"] }
serde = { version = "*", features = ["derive"] }
serde_json = "*"
dotenvy = "*"
