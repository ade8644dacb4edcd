[package]
name = "flexencoder"
version = "0.1.0"
edition = "2021"
publish = false

[dependencies]
bit_reverse = "0.1"
bitstream-io = "*"
chrono = "0.4"
getopts = "0.2"
serde = { version = "1", features = ["derive"] }
serde_json = "1"
