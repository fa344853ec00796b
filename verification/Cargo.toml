[package]
name = "k8sfwd"
version = "0.4.0"
edition = "2021"
publish = false

[dependencies]
semver = "*"
pathdiff = "*"
serde = { version = "*", features = ["derive"] }
serde_yaml = "*"
serde_json = "*"
clap = { version = "*", features = ["derive", "env"] }
anyhow = "*"
dirs = "*"
dotenvy = "*"
which = "*"
same-file = "*"
socket2 = "*"
