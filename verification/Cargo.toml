[package]
name = "ferox_extractor"
version = "0.1.0"
edition = "2021"
publish = false

[dependencies]
url = "*"
regex = "*"
ansi_term = "*"
anyhow = "*"
console = "*"
indicatif = "*"
log = "*"
reqwest = { version = "*", default-features = false, features = ["blocking"] }
