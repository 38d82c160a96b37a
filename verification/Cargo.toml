[package]
name = "manasight_parser"
version = "0.6.0"
edition = "2021"
publish = false

[dependencies]
chrono = "0.4"
log = "0.4"
serde_json = "1"
