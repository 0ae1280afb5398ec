[package]
name = "httpauth"
version = "0.1.0"
edition = "2021"
publish = false

[dependencies]
actix-service = "=1.0.6"
actix-web = { version = "=2.0.0", default-features = false }
chrono = "=0.4.19"
futures = { version = "=0.3.34", features = ["compat"] }
futures-locks = { version = "=0.5.0", default-features = false }
