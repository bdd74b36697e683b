[package]
name = "samotop"
version = "0.1.0"
edition = "2021"
publish = false

[dependencies]
regex = "1"
uuid = { version = "1", features = ["v4"] }
structopt = "0.3"
hostname = "0.3"
log = "0.4"
env_logger = "0.9"
