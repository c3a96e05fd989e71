[package]
name = "lumina"
version = "0.1.0"
edition = "2021"
publish = false

[dependencies]
serde_json = "*"
scraper = "*"
regex = "*"
chrono = "*"
uuid = { version = "*", features = ["v4"] }
llm-connector = "*"
reqwest = { version = "*", default-features = false, features = ["blocking"] }
tokio = { version = "*", features = ["rt-multi-thread", "macros", "time"] }
futures = "*"
sqlx = { version = "*", default-features = false, features = ["runtime-tokio", "sqlite"] }
