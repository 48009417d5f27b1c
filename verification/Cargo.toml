[package]
name = "secret_santa"
version = "0.1.0"
edition = "2021"
publish = false

[dependencies]
rand = "0.8"
regex = "1"
chrono = "0.4"
rusqlite = "*"
r2d2 = "0.8"
r2d2_sqlite = "*"
serenity = "0.12"
tokio = { version = "1", features = ["macros", "rt-multi-thread"] }
reqwest = { version = "*", features = ["json"] }
serde_json = "1"
url = "2"
