[package]
name = "ac_core"
version = "0.1.0"
edition = "2021"
publish = false

[dependencies]
hmac = "*"
sha2 = "*"
base64 = "*"
serde = { version = "*", features = ["derive"] }
serde_json = "*"
csv = "*"
statrs = "*"
tokio = { version = "*", features = ["rt", "macros", "time", "net", "sync", "io-util"] }
futures = "*"
tokio-tungstenite = "*"
dotenvy = "*"
envy = "*"
toml = "*"
