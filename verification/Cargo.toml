[package]
name = "oasis_forum"
version = "0.1.0"
edition = "2021"
publish = false

[dependencies]
argon2 = "*"
blake2 = "=0.11.0"
chrono = "=0.4.45"
serde = { version = "=1.0.229", features = ["derive"] }
actix-web = "=4.15.0"
tera = "=2.4.0"
dotenv = "=0.15.0"
