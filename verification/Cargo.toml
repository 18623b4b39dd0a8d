[package]
name = "rblitz"
version = "0.1.0"
edition = "2021"
publish = false

[dependencies]
blowfish = "=0.10.0"
byteorder = "1"
cipher = "=0.5.2"
serde = { version = "1", features = ["derive"] }
toml = "*"
ron = "*"
