[package]
name = "crr_server"
version = "0.1.0"
edition = "2021"
publish = false

[dependencies]
axum = "0.6"
axum-extra = { version = "0.7", features = ["cookie"] }
nanoid = "0.4"
rusqlite = { version = "0.29", features = ["bundled"] }
