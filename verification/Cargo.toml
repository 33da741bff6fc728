[package]
name = "chatgpt_proxy_server"
version = "0.1.0"
edition = "2021"
publish = false

[dependencies]
dotenv = "0.15"
hyper = { version = "0.14", features = ["full"] }
hyper-tls = "0.5"
lazy_static = "1"
tokio = { version = "1", features = ["full"] }
