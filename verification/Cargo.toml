[package]
name = "people_data"
version = "0.1.0"
edition = "2021"
publish = false

[dependencies]
rand = "0.8"
rust-argon2 = "0.8"
Inflector = { version = "0.11", default-features = false }
uuid = { version = "0.8", features = ["v4"] }
chrono = "0.4"
serde = { version = "1", features = ["derive"] }
dotenv = "0.15"
