[package]
name = "bdk_labels"
version = "0.1.0"
edition = "2021"
publish = false

[dependencies]
anyhow = "*"
bip329 = "*"
bitcoin = "*"
clap = { version = "*", features = ["derive", "env"] }
dirs = "*"
rusqlite = { version = "*", features = ["bundled"] }
