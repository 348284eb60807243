[package]
name = "arbitrage"
version = "0.1.0"
edition = "2021"
publish = false

[dependencies]
rust_decimal = "*"
ftx = "*"
futures = "*"
tokio = { version = "*", features = ["full"] }
dotenv = "*"
