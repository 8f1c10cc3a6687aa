[package]
name = "kotoba_server"
version = "0.1.0"
edition = "2021"
publish = false

[dependencies]
actix-web = "*"
juniper = "*"
lazy_static = "*"
serde = { version = "*", features = ["derive"] }
serde_json = "*"
