[package]
name = "raftcli"
version = "0.1.0"
edition = "2021"
publish = false

[dependencies]
crossterm = "*"
serialport-fix-stop-bits = { version = "*", default-features = false }
chrono = "*"
clap = { version = "*", features = ["derive"] }

[dev-dependencies]
wildmatch = "*"
