[package]
name = "rmms_core"
version = "0.1.0"
edition = "2021"
publish = false

[dependencies]
quick-xml = "0.31"
flate2 = "1"
clap = { version = "4", features = ["derive"] }
thiserror = "1"
flacenc = "*"
bitvec = "1"
cpal = "*"
