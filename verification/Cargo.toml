[package]
name = "database"
version = "0.1.0"
edition = "2021"
publish = false

[dependencies]
anyhow = "1"
async-broadcast = "0.7"
futures = "0.3"
governor = "0.6"
imbl = "3"
itertools = "0.12"
tracing = "0.1"
