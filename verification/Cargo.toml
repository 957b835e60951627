[package]
name = "wipedicks"
version = "0.1.0"
edition = "2021"
publish = false

[dependencies]
anyhow = "1"
clap = { version = "4", features = ["derive"] }
console = "0.15"
ctrlc = "3"
indicatif = "0.17"
rand = { version = "0.8", features = ["small_rng"] }
wide = "0.7"
