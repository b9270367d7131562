[package]
name = "modshell"
version = "0.1.0"
edition = "2021"
publish = false

[dependencies]
anyhow = "1"
colored = "*"
libloading = "*"
rustyline = "*"
ureq = "*"

[dev-dependencies]
regex = "*"
