[package]
name = "rustcraft"
version = "0.1.0"
edition = "2021"
publish = false

[dependencies]
bevy = { version = "=0.17.3", default-features = false, features = ["std"] }
rand = "=0.8.8"
packed-uints = "=0.1.9"
serde = { version = "=1.0.229", features = ["derive"] }
strum = "0.26"
strum_macros = "=0.26.4"
clap = { version = "=4.6.7", features = ["derive"] }
