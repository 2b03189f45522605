[package]
name = "twelve_client"
version = "0.1.0"
edition = "2021"
publish = false

[dependencies]
chrono = "0.4"
rand = "0.8"
reqwest = { version = "0.11", features = ["json"] }
rusqlite = { version = "0.29", features = ["bundled"] }
serde = "1"
serde_derive = "1"
sha256 = "1"
tokio = { version = "1", features = ["macros", "rt-multi-thread"] }
