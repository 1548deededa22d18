[package]
name = "splicer"
version = "0.1.0"
edition = "2021"
publish = false

[dependencies]
anyhow = "*"
clap = { version = "*", features = ["derive"] }
colored = "*"
cviz = "*"
serde = { version = "*", features = ["derive"] }
serde_json = "*"
serde_yaml = "*"
wirm = "*"
