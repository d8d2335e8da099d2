[package]
name = "ezytutors"
version = "0.1.0"
edition = "2021"
publish = false

[dependencies]
chrono = { version = "=0.4.45", features = ["serde"] }
actix-web = "=4.15.0"
actix-rt = "=2.15.0"
serde = { version = "=1.0.229", features = ["derive"] }
validator = { version = "=0.21.0", features = ["derive"] }
actix-web-validation = { version = "=0.9.1", features = ["validator"] }
