[package]
name = "pcktool"
version = "0.1.0"
edition = "2021"
publish = false

[dependencies]
hashbrown = "0.15"
zerocopy = "0.8"
clap = { version = "4", features = ["derive"] }
anyhow = "1"
memmap2 = "0.9"
