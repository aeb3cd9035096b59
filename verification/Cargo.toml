[package]
name = "madfilter"
version = "0.1.0"
edition = "2021"
publish = false

[dependencies]
anyhow = "=1.0.104"
base64 = "=0.22.1"
clap = { version = "=4.6.7", features = ["derive"] }
configparser = "=3.3.0"
mail-parser = "0.11"
tokio = { version = "=1.54.1", features = ["net", "io-util", "rt-multi-thread", "macros"] }
