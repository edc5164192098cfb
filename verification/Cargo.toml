[package]
name = "shell_core"
version = "0.1.0"
edition = "2021"
publish = false

[dependencies]
rustyline = "*"
shell-words = "*"
strum = { version = "*", features = ["derive"] }
thiserror = "*"
