[package]
name = "aiden"
version = "0.1.0"
edition = "2021"
publish = false

[dependencies]
anyhow = "1"
chrono = "0.4"
docx-rs = "*"
flate2 = "1"
flume = "*"
futures = "0.3"
itertools = "*"
log = "0.4"
lopdf = { version = "*", features = ["async"] }
md5 = "*"
rayon = "1"
serde = { version = "1", features = ["derive"] }
serde_json = "1"
text-cleaner = "*"
thiserror = "*"
tokio = { version = "1", features = ["rt", "rt-multi-thread", "time", "fs", "io-util", "macros"] }
