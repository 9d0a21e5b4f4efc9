[package]
name = "hlsd"
version = "0.1.0"
edition = "2021"
publish = false

[dependencies]
actix-cors = "0.7"
actix-web = { version = "4", default-features = false, features = ["macros"] }
anyhow = "1"
audiopus = "*"
clap = { version = "4", features = ["derive"] }
env_logger = "*"
fdk-aac = "*"
flacenc = "*"
log = "0.4"
mp3lame-encoder = "*"
serde = { version = "1", features = ["derive"] }
tokio = { version = "1", features = ["fs"] }
toml = "*"
