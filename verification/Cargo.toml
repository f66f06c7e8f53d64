[package]
name = "nudge"
version = "0.1.0"
edition = "2021"
publish = false

[dependencies]
rand = "0.8"
blake3 = "1"
gethostname = "*"
serde = { version = "1", features = ["derive"] }
serde_json = "1"
clap = { version = "4", features = ["derive", "env"] }
console = "*"
dialoguer = "*"
humansize = "2"
indicatif = "*"
