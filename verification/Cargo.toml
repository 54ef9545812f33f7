[package]
name = "popcorn"
version = "0.1.0"
edition = "2021"
publish = false

[dependencies]
futures = "0.1"
futures-cpupool = "0.1"
uuid = { version = "*", features = ["v4"] }
blas-sys = "*"
