[package]
name = "mwdump"
version = "0.1.0"
edition = "2021"
publish = false

[dependencies]
quick-xml = "*"
regex = "*"
anyhow = "*"
bzip2 = "*"
clap = { version = "*", features = ["derive"] }
futures-util = "*"
indicatif = "*"
reqwest = { version = "*", default-features = false, features = ["stream"] }
tokio = { version = "*", features = ["rt-multi-thread", "macros"] }
