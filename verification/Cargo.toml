[package]
name = "remendo"
version = "0.1.0"
edition = "2021"
publish = false

[dependencies]
base64 = "0.22"
similar = "2"
serde = { version = "1", features = ["derive"] }
serde_json = "1"
thiserror = "2"
ureq = { version = "3", features = ["json"] }
ratatui = "0.29"
