[package]
name = "ron_convert"
version = "0.1.0"
edition = "2021"
publish = false

[dependencies]
clap = { version = "*", features = ["derive"] }
ron = { version = "*", features = ["indexmap"] }
serde = "*"
serde_json = "*"
serde_yaml_bw = "*"
toml = { version = "*", features = ["preserve_order"] }
