[package]
name = "bullet"
version = "0.1.0"
edition = "2021"
publish = false

[dependencies]
clap = "3.2"
colored = "2"
rusqlite = { version = "*", features = ["bundled"] }
