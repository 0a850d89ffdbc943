[package]
name = "arch_demo"
version = "0.1.0"
edition = "2021"
publish = false

[dependencies]
anyhow = "=1.0.104"
borsh = { version = "=1.8.1", features = ["derive"] }
colored = "=2.2.0"
hex = "=0.4.3"
serde = { version = "=1.0.229", features = ["derive"] }

[dev-dependencies]
regex = "1"
