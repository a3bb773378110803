[package]
name = "chloe_bot"
version = "0.1.0"
edition = "2021"
publish = false

[dependencies]
actix-rt = "2"
actix-web = { version = "4", features = ["openssl"] }
async-channel = "1.9"
chrono = "0.4"
dotenv = "0.15"
futures-channel = "0.3"
futures-util = "0.3"
openssl = "0.10"
rand = "0.8"
reqwest = { version = "0.11", features = ["json"] }
serde = { version = "1", features = ["derive"] }
sqlx = { version = "0.7", default-features = false, features = ["runtime-tokio", "tls-native-tls", "postgres", "chrono"] }
tokio = { version = "1", features = ["full"] }
tokio-tungstenite = { version = "0.20", features = ["native-tls"] }
tracing = "0.1"
url = "2"
