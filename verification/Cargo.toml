[package]
name = "lodestone"
version = "0.1.0"
edition = "2021"
publish = false

[dependencies]
serde_json = { version = "=1.0.154", features = ["preserve_order"] }
toml = "=0.8.23"
zip = { version = "=0.6.6", default-features = false, features = ["deflate"] }
