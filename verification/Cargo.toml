[package]
name = "jj-prompt"
version = "0.1.0"
edition = "2021"
publish = false

[dependencies]
clap = { version = "=4.5.61", features = ["derive"] }
jj-lib = { version = "=0.41.0", default-features = false }
