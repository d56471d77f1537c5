[package]
name = "db_actor"
version = "0.1.0"
edition = "2021"
publish = false

[dependencies]
anyhow = "*"
sqlx = { version = "*", default-features = false }
tokio = { version = "*", default-features = false, features = ["sync", "rt"] }
