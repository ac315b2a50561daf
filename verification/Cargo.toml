[package]
name = "thinkbook_eink"
version = "0.1.0"
edition = "2021"
publish = false

[dependencies]
anyhow = "1"
bincode = "1"
chrono = "0.4"
image = "0.24"
imageproc = "0.23"
reqwest = { version = "0.11", default-features = false, features = ["blocking", "json", "rustls-tls"] }
rusb = { version = "0.9", features = ["vendored"] }
rusttype = "0.9"
serde = { version = "1", features = ["derive"] }
serde_json = "1"
sysinfo = "0.30"
toml = "0.8"
