[package]
name = "workspace_namer"
version = "0.1.0"
edition = "2021"
publish = false

[dependencies]
itertools = "*"
swayipc = "*"
toml = "*"
serde = "*"
