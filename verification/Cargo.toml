[package]
name = "advanced_dtn_node"
version = "0.1.0"
edition = "2021"
publish = false

[dependencies]
rsa = "=0.9.10"
sha2 = { version = "=0.10.9", features = ["oid"] }
aes-gcm = "=0.10.3"
rand = "=0.8.8"
clap = { version = "4", features = ["derive"] }
tokio = { version = "1", features = ["rt-multi-thread", "macros", "time"] }
uuid = "1"
btleplug = "0.11"
dtn7 = "*"
