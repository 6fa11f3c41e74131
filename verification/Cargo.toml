[package]
name = "aczor"
version = "0.1.0"
edition = "2021"
publish = false

[dependencies]
petgraph = "*"
url = "2"
smol_str = "*"
anyhow = "1"
async-trait = "0.1"
async-recursion = "1"
futures = "0.3"
tokio = { version = "1", features = ["fs", "rt", "macros"] }
