[package]
name = "mcproto"
version = "0.1.0"
edition = "2021"
publish = false

[dependencies]
rand = "*"
uuid = "1"
serde = { version = "1", features = ["derive"] }
serde_json = "1"
reqwest = { version = "0.12", default-features = false, features = ["json"] }
tokio = { version = "1", features = ["time", "rt", "macros"] }
log = "0.4"
thiserror = "2"
