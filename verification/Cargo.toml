[package]
name = "cesty"
version = "0.1.0"
edition = "2021"
publish = false

[dependencies]
clang-sys = { version = "*", features = ["runtime"] }
clap = { version = "*", features = ["derive"] }
colored = "*"
globwalk = "*"
path-clean = "*"
serde = { version = "*", features = ["derive"] }
serde_yaml = "*"
toml = "*"
