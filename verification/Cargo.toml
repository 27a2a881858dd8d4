[package]
name = "pyconflict"
version = "0.1.0"
edition = "2021"
publish = false

[dependencies]
anyhow = "1"
clap = { version = "4", features = ["derive"] }
colored = "2"
semver = "1"

[dev-dependencies]
regex = "1"
