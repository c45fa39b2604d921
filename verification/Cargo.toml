[package]
name = "monitor"
version = "0.1.0"
edition = "2021"
publish = false

[dependencies]
rquickjs = "*"
serde_json = "*"
tokio = { version = "*", features = ["macros", "rt-multi-thread", "signal", "time"] }
reqwest = { version = "*", default-features = false, features = ["rustls-tls"] }
sqlx = { version = "*", default-features = false, features = ["runtime-tokio", "tls-rustls", "postgres", "chrono", "uuid"] }
tokio-cron-scheduler = "*"
chrono = "*"
uuid = { version = "*", features = ["v4"] }
