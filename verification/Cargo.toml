[package]
name = "connect_box"
version = "0.1.0"
edition = "2021"
publish = false

[dependencies]
clap = "*"
env_logger = "*"
hyper = "*"
log = "*"
reqwest = { version = "*", default-features = false, features = ["cookies", "form"] }
serde = { version = "*", features = ["derive"] }
serde-xml-rs = "*"
tokio = { version = "*", features = ["macros", "rt", "time", "signal"] }
