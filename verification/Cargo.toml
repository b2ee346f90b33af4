[package]
name = "server"
version = "0.1.0"
edition = "2021"
publish = false

[dependencies]
postgres = "0.19"
serde = "1"
serde_derive = "1"
serde_json = "1"
