[package]
name = "fsledger"
version = "0.1.0"
edition = "2021"
publish = false

[dependencies]
lopdf = "*"
rayon = "*"
serde_json = "*"
shellexpand = "*"
