[package]
name = "rustux"
version = "0.1.0"
edition = "2021"
publish = false

[dependencies]
env_logger = "*"
glam = "*"
image = { version = "*", default-features = false, features = ["png", "bmp"] }
log = "*"
reqwest = { version = "*", default-features = false, features = ["rustls-tls"] }
sdl2 = "*"
serde = { version = "*", features = ["derive"] }
serde_json = "*"
thiserror = "*"
tokio = { version = "*", features = ["rt-multi-thread", "macros"] }
toml = "*"
