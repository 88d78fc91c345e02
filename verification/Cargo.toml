[package]
name = "hikari"
version = "0.1.0"
edition = "2021"
publish = false

[dependencies]
fxhash = "0.2"
lru = "*"
anyhow = "1"
thiserror = "*"
clap = { version = "3", features = ["derive"] }
simple_logger = "*"
log = "0.4"
parking_lot = "0.12"
vk-sync-fork = "*"
