[package]
name = "rocky"
version = "0.1.0"
edition = "2021"
publish = false

[dependencies]
chrono = "*"
uuid = { version = "*", features = ["v4"] }
clap = "*"
colored = "*"
rustyline = "*"
rustyline-derive = "*"
num_cpus = "*"
