[package]
name = "fmdemod"
version = "0.1.0"
edition = "2021"
publish = false

[dependencies]
anyhow = "1"
clap = { version = "4", features = ["derive"] }
console = "0.15"
cpal = "0.15"
ringbuf = "0.4"
