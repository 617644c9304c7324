[package]
name = "auction_core"
version = "0.1.0"
edition = "2021"
publish = false

[dependencies]
regex = "1"
bcrypt = "*"
axum = { version = "0.8", features = ["ws"] }
tokio = { version = "1", features = ["full"] }
sqlx = { version = "0.8", default-features = false, features = ["mysql", "runtime-tokio", "bigdecimal"] }
bigdecimal = "0.4"
chrono = "0.4"
dotenvy = "0.15"
futures-util = { version = "0.3", features = ["sink"] }
jsonwebtoken = "9"
serde = { version = "1", features = ["derive"] }
serde_json = "1"
tower-http = { version = "0.6", features = ["cors"] }
