[package]
name = "vs1"
version = "0.1.0"
edition = "2021"
publish = false

[dependencies]
anyhow = "*"
candle-core = "*"
candle-nn = "*"
hf-hub = { version = "*", default-features = false, features = ["ureq", "rustls-tls"] }
indexmap = { version = "2", features = ["serde"] }
regex = "1"
reqwest = { version = "0.12", default-features = false, features = ["blocking", "json", "rustls-tls"] }
serde = { version = "1", features = ["derive"] }
serde_json = { version = "1", features = ["preserve_order"] }
thiserror = "2"
tokenizers = { version = "*", default-features = false, features = ["onig"] }
