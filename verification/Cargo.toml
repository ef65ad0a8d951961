[package]
name = "dronenet"
version = "0.1.0"
edition = "2021"
publish = false

[dependencies]
petgraph = "*"
rustworkx-core = "*"
rand = "*"
serde = { version = "*", features = ["derive"] }
serde_json = "*"
clap = "*"
