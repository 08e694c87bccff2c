[package]
name = "shlib"
version = "0.1.0"
edition = "2021"
publish = false

[dependencies]
anyhow = "1"
is_executable = "*"
os_pipe = "*"
rustyline = "*"
strum = { version = "*", features = ["derive"] }
termion = "*"
