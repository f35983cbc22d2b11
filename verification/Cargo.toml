[package]
name = "codegraph"
version = "0.1.0"
edition = "2021"
publish = false

[dependencies]
petgraph = "*"
uuid = { version = "*", features = ["v4"] }
md5 = "*"
serde = { version = "*", features = ["derive"] }
serde_json = "*"
clap = { version = "*", features = ["derive"] }
toml = "*"
dirs = "*"
