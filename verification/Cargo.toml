[package]
name = "cryptogram"
version = "0.1.0"
edition = "2021"
publish = false

[dependencies]
ed25519-dalek = "2"
sha2 = "0.10"
rand = "0.8"
serde = { version = "1", features = ["derive"] }
serde_json = "1"
serde_qs = "*"
tokio = { version = "1", features = ["full"] }
warp = "0.3"
clap = "4"
toml = "*"
uuid = { version = "1", features = ["v4"] }
reqwest = { version = "0.12", default-features = false, features = ["rustls-tls"] }
scraper = "*"
heed = "*"
rusqlite = { version = "*", features = ["bundled"] }
anyhow = "1"
thiserror = "*"
http = "*"
byteorder = "*"

[dev-dependencies]
hex = "0.4"
