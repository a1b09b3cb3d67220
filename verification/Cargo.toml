[package]
name = "sqlplannertest"
version = "0.1.0"
edition = "2021"
publish = false

[dependencies]
anyhow = "*"
clap = { version = "*", features = ["derive"] }
console = "*"
futures-util = "*"
glob = "*"
libtest-mimic = "*"
serde = { version = "*", features = ["derive"] }
serde_yaml = "*"
similar = "*"
tokio = { version = "*", features = ["fs", "macros", "rt", "rt-multi-thread"] }
