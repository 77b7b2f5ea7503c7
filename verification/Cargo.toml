[package]
name = "checkupgrades"
version = "0.1.0"
edition = "2021"
publish = false

[dependencies]
zstd = "*"
flate2 = "*"
tar = "*"
chrono = "*"
reqwest = { version = "*", default-features = false }
tokio = { version = "*", features = ["full"] }
clap = "*"
anstream = "*"
anstyle-query = "*"
owo-colors = "*"
rustix = { version = "*", features = ["process"] }
bstr = "*"
anyhow = "*"
