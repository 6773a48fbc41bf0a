[package]
name = "modcon2"
version = "0.1.0"
edition = "2021"
publish = false

[dependencies]
colored = "2"
log = "0.4"
pretty_env_logger = "0.5"
rodio = { version = "0.19", default-features = false }
tokio = { version = "1", features = ["macros", "rt-multi-thread", "time"] }
