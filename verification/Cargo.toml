[package]
name = "uwupm"
version = "0.1.0"
edition = "2021"
publish = false

[dependencies]
flate2 = "*"
tar = "*"
reqwest = { version = "*", default-features = false, features = ["blocking"] }
indicatif = "*"
libc = "*"
terminal_size = "*"
