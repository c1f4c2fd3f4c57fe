[package]
name = "lightdash"
version = "0.1.0"
edition = "2021"
publish = false

[dependencies]
chrono = "0.4"
clap = { version = "4", features = ["derive"] }
env_logger = "*"
flate2 = "1"
log = "0.4"
maud = "*"
serde = { version = "1", features = ["derive"] }
serde_json = "1"
ureq = { version = "2", features = ["json"] }
