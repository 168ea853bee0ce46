[package]
name = "pve_ssh"
version = "0.1.0"
edition = "2021"
publish = false

[dependencies]
anyhow = "*"
clap = { version = "*", features = ["derive"] }
ctrlc = "*"
dialoguer = "*"
dirs = "*"
whoami = "*"
