[package]
name = "dhttp"
version = "0.1.0"
edition = "2021"
publish = false

[dependencies]
anyhow = "1"
async-h1 = "2.3"
async-std = { version = "1", features = ["attributes", "unstable"] }
clap = { version = "4", features = ["derive"] }
futures-lite = "1"
http-types = "2"
libc = "0.2"
tide = "0.16"
