[package]
name = "mfa_session"
version = "0.1.0"
edition = "2021"
publish = false

[dependencies]
crossterm = "=0.27.0"
rust-ini = "=0.21.3"
serde_json = "=1.0.154"
