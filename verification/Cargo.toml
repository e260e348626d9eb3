[package]
name = "streamwatch"
version = "0.1.0"
edition = "2021"
publish = false

[dependencies]
dotenv = "*"
eyre = "*"
tokio = { version = "*", features = ["macros", "rt-multi-thread", "time"] }
web3 = { version = "*", default-features = false, features = ["ws-tokio"] }
