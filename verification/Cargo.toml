[package]
name = "filegram"
version = "0.1.0"
edition = "2021"
publish = false

[dependencies]
block-padding = "0.3"
chacha20poly1305 = "0.10"
clap = { version = "4", features = ["derive"] }
image = { version = "0.24", default-features = false, features = ["png"] }
imageproc = { version = "0.23", default-features = false }
serde = { version = "1", features = ["derive"] }
serde_json = "1"
