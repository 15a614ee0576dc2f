[package]
name = "rustchat"
version = "0.1.0"
edition = "2021"
publish = false

[dependencies]
serde_json = "*"
ring = "*"
base64 = "*"
anyhow = "*"
serde = { version = "*", features = ["derive"] }
clap = { version = "*", features = ["derive"] }
reqwest = { version = "*", default-features = false, features = ["json", "stream", "rustls-tls"] }
tokio = { version = "*", features = ["macros", "rt-multi-thread", "time", "sync"] }
rustyline = "*"
dirs = "*"
toml = "*"
futures = "*"
async-stream = "*"
async-trait = "*"
chrono = "*"
parking_lot = "*"
yup-oauth2 = "*"
hyper = "*"
hyper-rustls = "*"
