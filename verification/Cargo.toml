[package]
name = "chimes_utils"
version = "0.1.0"
edition = "2021"
publish = false

[dependencies]
rand = "0.8"
tokio = { version = "1", features = ["sync", "time", "rt", "rt-multi-thread", "macros"] }
async-std = "1"
lettre = { version = "0.10", default-features = false, features = ["smtp-transport", "builder"] }
log = "0.4"
yaml-rust = "0.4"
serde_json = "1"
