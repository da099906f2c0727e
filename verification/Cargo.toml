[package]
name = "proxy_stats"
version = "0.1.0"
edition = "2021"
publish = false

[dependencies]
chrono = "0.4"
prettytable-rs = "0.10"
hyper = { version = "0.14", features = ["full"] }
tokio = { version = "1", features = ["rt-multi-thread", "macros", "time", "net"] }
clap = { version = "4", features = ["derive"] }
