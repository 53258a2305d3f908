[package]
name = "lijin_book"
version = "0.1.0"
edition = "2021"
publish = false

[dependencies]
argon2 = { version = "=0.5.3", features = ["std"] }
uuid = { version = "=1.29.0", features = ["v4"] }
chrono = "=0.4.45"
sha2 = "=0.10.9"
serde = { version = "=1.0.229", features = ["derive"] }
serde_json = "=1.0.154"
csv = "=1.4.0"
calamine = "=0.38.0"
rusqlite = { version = "=0.41.1", features = ["bundled", "backup"] }
rust_xlsxwriter = "=0.102.0"
reqwest = { version = "=0.13.5", default-features = false, features = ["json"] }
