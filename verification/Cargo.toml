[package]
name = "node_stats"
version = "0.1.0"
edition = "2021"
publish = false

[dependencies]
rand = "0.8"
serde = { version = "1", features = ["derive"] }
bincode = "1.3"
clap = "4"
chashmap = "2.2"
