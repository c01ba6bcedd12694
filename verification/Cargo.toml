[package]
name = "comik"
version = "0.1.0"
edition = "2021"
publish = false

[dependencies]
compress-tools = "*"
image = "*"

[dev-dependencies]
zip = "*"
