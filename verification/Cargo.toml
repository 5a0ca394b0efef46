[package]
name = "uki_manager"
version = "0.1.0"
edition = "2021"
publish = false

[dependencies]
exe = "0.5"
getopts = "0.2"
thiserror = "1"
anyhow = "1"
colored = "2"
serde = { version = "1", features = ["derive"] }
toml = "0.8"
