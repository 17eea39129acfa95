[package]
name = "sparkle"
version = "0.1.0"
edition = "2021"
publish = false

[dependencies]
toml = "*"
file-format = "*"
mime_guess2 = "*"
clap = { version = "*", features = ["derive"] }
tracing = "*"
tracing-subscriber = { version = "*", features = ["env-filter"] }
