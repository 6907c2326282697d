[package]
name = "kanade"
version = "0.1.0"
edition = "2021"
publish = false

[dependencies]
aes-gcm = "=0.11.1"
hmac = "=0.13.0"
sha2 = "=0.11.1"
hex = "=0.4.3"
urlencoding = "=2.1.3"
itertools = "=0.15.0"
uuid = { version = "=1.29.0", features = ["v4"] }
rand = "=0.10.3"
oauth2 = { version = "=5.0.0", default-features = false }
serde = { version = "=1.0.229", features = ["derive"] }
serde_json = "=1.0.154"
anyhow = "=1.0.104"
tokio = { version = "=1.54.1", features = ["full"] }
clap = { version = "=4.6.7", features = ["derive", "env"] }
chrono = "=0.4.45"
poem = { version = "=3.1.12", features = ["websocket", "sse"] }
sqlx = { version = "=0.9.0", default-features = false, features = ["runtime-tokio", "postgres", "uuid", "chrono", "json", "macros", "migrate"] }
reqwest = { version = "=0.13.5", default-features = false, features = ["json"] }
figment = { version = "=0.10.19", features = ["toml", "env"] }
jsonwebtoken = { version = "=11.1.0", features = ["rust_crypto"] }
secrecy = "=0.10.3"
tracing = "=0.1.44"
tracing-subscriber = { version = "=0.3.23", features = ["env-filter"] }
nanoid = "=0.5.0"
ssh-key = { version = "=0.6.7", features = ["ed25519", "getrandom", "std"] }
fred = "=10.1.0"
futures-util = "=0.3.34"
tokio-tungstenite = "=0.27.0"
async-stream = "=0.3.6"
