[package]
name = "quickpaste_history"
version = "0.1.0"
edition = "2021"
publish = false

[dependencies]
base64 = "=0.22.1"
chrono = { version = "=0.4.45", default-features = false, features = ["clock", "std"] }
getrandom = "=0.3.4"
image = { version = "=0.25.10", default-features = false, features = ["png"] }
rusqlite = { version = "=0.32.1", features = ["bundled", "backup"] }
serde = { version = "=1.0.229", features = ["derive"] }
serde_json = "=1.0.154"
unicode-normalization = "=0.1.26"
