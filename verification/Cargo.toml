[package]
name = "check_websites"
version = "0.1.0"
edition = "2021"
publish = false

[dependencies]
curl = "=0.4.50"
rust-ini = "=0.21.3"
slack-hook = { version = "=0.9.1", features = ["blocking"] }
log = "=0.4.34"
env_logger = "=0.11.11"
