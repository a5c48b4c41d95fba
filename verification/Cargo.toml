[package]
name = "rezon"
version = "0.1.0"
edition = "2021"
publish = false

[dependencies]
anyhow = "1"
async-openai = { version = "=0.32.4", features = ["chat-completion", "model"] }
async-trait = "0.1"
dotenvy = "0.15"
futures = "0.3"
keyring = "=3.6.3"
libc = "0.2"
reqwest = { version = "=0.12.28", default-features = false, features = ["stream"] }
serde = { version = "1", features = ["derive"] }
serde_json = "=1.0.154"
sha2 = "=0.10.9"
tokio = { version = "1", features = ["full"] }

[dev-dependencies]
tempfile = "3"
