[package]
name = "barad_dur"
version = "0.1.0"
edition = "2021"
publish = false

[dependencies]
anyhow = "*"
axum = "*"
clap = "*"
config = "*"
serde = { version = "*", features = ["derive"] }
serde_json = "*"
time = { version = "*", features = ["parsing", "formatting", "macros"] }
tokio = { version = "*", features = ["full"] }
