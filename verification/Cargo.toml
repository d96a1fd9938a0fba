[package]
name = "marscal"
version = "0.1.0"
edition = "2021"
publish = false

[dependencies]
sciimg = "*"
serde = { version = "*", features = ["derive"] }
serde_json = "*"
toml = "*"
clap = { version = "*", features = ["derive"] }
