[package]
name = "linksen"
version = "0.1.0"
edition = "2021"
publish = false

[dependencies]
clap = { version = "4", features = ["derive"] }
colored = "2"
dirs = "5"
google-youtube3 = "5"
indicatif = "0.17"
regex = "1"
reqwest = { version = "0.11", default-features = false, features = ["rustls-tls"] }
rspotify = { version = "0.12", default-features = false, features = ["client-reqwest", "reqwest-rustls-tls"] }
serde = { version = "1", features = ["derive"] }
serde_json = "1"
tokio = { version = "1", features = ["macros", "rt-multi-thread"] }
