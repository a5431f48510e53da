[package]
name = "mcbe_lan_advertizer"
version = "0.1.0"
edition = "2021"
publish = false

[dependencies]
rand = "0.8"
clap = { version = "4", features = ["derive"] }
anyhow = "1"
