[package]
name = "public-ollama-finder"
version = "0.1.0"
edition = "2021"
publish = false

[dependencies]
anyhow = "1"
console = "0.15"
crossterm = "0.27"
csv = "1"
ctrlc = "3"
futures = "0.3"
indicatif = "0.17"
ipnet = "2"
regex = "1"
reqwest = { version = "0.12", default-features = false, features = ["json"] }
serde = { version = "1", features = ["derive"] }
serde_json = "1"
tokio = { version = "1", features = ["rt-multi-thread", "macros", "sync", "time"] }
