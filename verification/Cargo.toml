[package]
name = "autobahnkreuz"
version = "0.1.0"
edition = "2021"
publish = false

[dependencies]
rand = "0.5"
regex = "1"
ws = "0.9"
serde = { version = "1", features = ["derive"] }
serde_json = "1"
rmp-serde = "1"
futures = "0.3"
log = "0.4"
env_logger = "0.11"
ctrlc = "3"
failure = "0.1"
