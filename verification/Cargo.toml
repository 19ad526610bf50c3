[package]
name = "health_services"
version = "0.1.0"
edition = "2021"
publish = false

[dependencies]
serde_json = "=1.0.154"
urlencoding = "=2.1.3"
rust-argon2 = "=3.0.0"
regex = "=1.13.1"
uuid = { version = "=1.29.0", features = ["v4"] }
serde = { version = "=1.0.229", features = ["derive"] }
actix-web = { version = "=4.18.1", default-features = false, features = ["macros", "cookies"] }
actix-files = "=0.6.10"
reqwest = { version = "=0.12.28", default-features = false, features = ["rustls-tls"] }
sqlx = { version = "=0.8.6", default-features = false, features = ["sqlite", "runtime-tokio"] }
handlebars = "=6.4.4"
dotenv = "=0.15.0"
log = "=0.4.34"
futures = "=0.3.34"
