[package]
name = "suricata_agent"
version = "0.1.0"
edition = "2021"
publish = false

[dependencies]
serde_json = "*"
serde = { version = "*", features = ["derive"] }
dotenvy = "*"
reqwest = { version = "*", default-features = false, features = ["blocking", "json"] }
