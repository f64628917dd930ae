[package]
name = "build_rs_libnix"
version = "0.1.0"
edition = "2021"
publish = false

[dependencies]
anyhow = "1"
clap = { version = "4", features = ["derive"] }
colored = "2"

[dev-dependencies]
regex = "1"
