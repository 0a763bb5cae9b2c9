[package]
name = "cidr_inspector"
version = "0.1.0"
edition = "2021"
publish = false

[dependencies]
ipnet = "2"
clap = { version = "4", features = ["derive"] }
serde = { version = "1", features = ["derive"] }
serde_json = "1"
tabled = "*"
thiserror = "*"
