[package]
name = "foundry_auth"
version = "0.1.0"
edition = "2021"
publish = false

[dependencies]
password-auth = "*"
tower-sessions = "*"
tokio = { version = "*", features = ["rt-multi-thread", "time", "sync", "macros"] }
