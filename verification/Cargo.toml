[package]
name = "soda_fuzz"
version = "0.1.0"
edition = "2021"
publish = false

[dependencies]
clap = { version = "*", features = ["derive"] }
console = "*"
reqwest = { version = "*", default-features = false, features = ["blocking"] }
