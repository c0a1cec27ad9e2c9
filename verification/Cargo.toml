[package]
name = "geoxidated"
version = "0.1.0"
edition = "2021"
publish = false

[dependencies]
serde_json = { version = "=1.0.154", features = ["preserve_order", "float_roundtrip"] }
serde = { version = "=1.0.229", features = ["derive"] }
toml = "=0.8.23"
futures = "=0.3.34"
rocket = "=0.5.2"
sqlx = { version = "=0.8.6", default-features = false, features = ["runtime-tokio", "postgres"] }
derive-new = "=0.7.0"
