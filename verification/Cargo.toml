[package]
name = "pixelflut_ball"
version = "0.1.0"
edition = "2021"

[dependencies]
tokio = { version = "1", features = ["rt-multi-thread", "macros", "net", "io-util", "time", "sync"] }
clap = { version = "4", features = ["derive"] }
image = "0.25"
async-trait = "0.1"
