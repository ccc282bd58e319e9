[package]
name = "s4"
version = "0.1.0"
edition = "2021"
publish = false

[dependencies]
tera = "1"
toml = "*"
serde = "*"
serde_derive = "*"
