[package]
name = "plugin_host"
version = "0.1.0"
edition = "2021"
publish = false

[dependencies]
indexmap = "*"
tokio = { version = "*", features = ["rt", "sync", "macros"] }
