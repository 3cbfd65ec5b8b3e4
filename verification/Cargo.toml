[package]
name = "daphne"
version = "0.1.0"
edition = "2021"
publish = false

[dependencies]
async-trait = "0.1"
base64 = "0.21"
deepsize = "0.2"
futures = "0.3"
hex = { version = "0.4", features = ["serde"] }
prio = "0.16"
prometheus = { version = "0.13", default-features = false }
rand = "0.8"
regex = "1"
reqwest = { version = "0.11", default-features = false }
serde = { version = "1", features = ["derive"] }
tokio = { version = "1", features = ["sync"] }
url = { version = "2", features = ["serde"] }
