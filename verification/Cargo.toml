[package]
name = "portmate_ssh"
version = "0.1.0"
edition = "2021"
publish = false

[dependencies]
ssh-key = { version = "0.6", features = ["std", "alloc"] }
base64 = "0.22"
chrono = "0.4"
serde = { version = "1", features = ["derive"] }
serde_json = "1"
