[package]
name = "dmi"
version = "0.1.0"
edition = "2021"
publish = false

[dependencies]
png = "*"
image = { version = "*", default-features = false, features = ["png"] }
serde_json = "*"
