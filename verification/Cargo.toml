[package]
name = "dcl2d"
version = "0.1.0"
edition = "2021"
publish = false

[dependencies]
rand = "=0.8.8"
serde = { version = "=1.0.229", features = ["derive"] }
serde_json = "=1.0.154"
rmp-serde = "=1.3.1"
toml = "=0.7.8"
clap = { version = "=4.6.7", features = ["derive"] }
glob = "=0.3.4"
chrono = "=0.4.45"
walkdir = "=2.5.0"
tempdir = "=0.3.7"
serde-xml-rs = "=0.6.0"
aseprite = "=0.1.3"
imagesize = "=0.12.0"
tokio = { version = "=1.54.1", features = ["macros", "rt-multi-thread"] }
reqwest = "=0.11.27"
image = { version = "0.24", default-features = false, features = ["png"] }
