[package]
name = "spear_exec"
version = "0.1.0"
edition = "2021"
publish = false

[dependencies]
dashmap = "=6.2.1"
serde = { version = "=1.0.229", features = ["derive"] }
serde_json = "=1.0.154"
base64 = "=0.22.1"
thiserror = "=1.0.69"
md5 = "0.7"
uuid = { version = "1", features = ["v4"] }
