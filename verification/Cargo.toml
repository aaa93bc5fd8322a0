[package]
name = "uefi_run"
version = "0.1.0"
edition = "2021"
publish = false

[dependencies]
fatfs = "*"
clap = { version = "*", features = ["derive"] }
ctrlc = "*"
tempfile = "*"
wait-timeout = "*"
