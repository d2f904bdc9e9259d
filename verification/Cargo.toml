[package]
name = "class_scheduler"
version = "0.1.0"
edition = "2021"
publish = false

[dependencies]
anyhow = "=1.0.104"
calamine = "=0.38.0"
chrono = "=0.4.45"
clap = { version = "=4.6.7", features = ["derive"] }
csv = "=1.4.0"
diesel = { version = "=2.3.14", features = ["postgres"] }
dotenvy = "=0.15.7"
serde = { version = "=1.0.229", features = ["derive"] }

[dev-dependencies]
zip = { version = "=9.2.2", default-features = false, features = ["deflate"] }
