[package]
name = "blog"
version = "0.1.0"
edition = "2021"
publish = false

[dependencies]
axum = "*"
hyper = "*"
maud = "*"
notify = "*"
tokio = { version = "*", features = ["rt-multi-thread", "macros", "signal", "net"] }
toml = "*"
tower = { version = "*", features = ["limit"] }
tower-http = { version = "*", features = ["trace", "fs"] }
tracing = "*"
tracing-subscriber = "*"
