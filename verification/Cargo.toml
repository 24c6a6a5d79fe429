[package]
name = "cbtr"
version = "0.1.0"
edition = "2021"
publish = false

[dependencies]
which = "*"
clap = { version = "*", features = ["derive"] }
gix = "*"
directories = "*"
toml = "*"
serde = { version = "*", features = ["derive"] }
env_logger = "*"
log = "*"
owo-colors = "*"
color-eyre = "*"
thiserror = "*"
tokio = { version = "*", features = ["macros", "rt-multi-thread"] }
tokio-stream = "*"
xcommand = "*"
