[package]
name = "zrglng"
version = "0.1.0"
edition = "2021"
publish = false

[dependencies]
url = "2"
reqwest = { version = "0.11", default-features = false, features = ["native-tls", "stream"] }
tokio = { version = "1", features = ["rt-multi-thread", "fs", "io-util", "time"] }
futures-util = "0.3"
structopt = "0.3"
color-eyre = "0.6"
log = "0.4"
pretty_env_logger = "0.4"
