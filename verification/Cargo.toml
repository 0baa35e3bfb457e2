[package]
name = "eth_receipts"
version = "0.1.0"
edition = "2021"
publish = false

[dependencies]
candid = "*"
ethnum = { version = "*", features = ["serde"] }
minicbor = { version = "*", features = ["derive", "alloc"] }
serde = { version = "*", features = ["derive"] }
