[package]
name = "setbuddy"
version = "0.1.0"
edition = "2021"
publish = false

[dependencies]
serde_json = "1"
anyhow = "1"
clap = { version = "4", features = ["derive"] }
dirs = "5"
lofty = "*"
rusqlite = "*"
thiserror = "2"
uniffi = "*"
walkdir = "2"
