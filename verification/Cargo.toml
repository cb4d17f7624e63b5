[package]
name = "poker_stats"
version = "0.1.0"
edition = "2021"
publish = false

[dependencies]
rand = "0.8"
rayon = "1"
clap = { version = "4", features = ["derive"] }
