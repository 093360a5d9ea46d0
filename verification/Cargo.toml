[package]
name = "usaco_cli"
version = "0.1.0"
edition = "2021"
publish = false

[dependencies]
indexmap = { version = "=2.14.2", features = ["serde"] }
zip = { version = "=8.6.0", default-features = false, features = ["deflate"] }
similar = "=3.2.0"
tokio = { version = "*", features = ["rt-multi-thread", "macros", "fs", "process", "io-util", "time"] }
clap = { version = "*", features = ["derive"] }
clap_complete = "*"
console = "*"
dialoguer = "*"
indicatif = "*"
indicatif-log-bridge = "*"
directories = "*"
env_logger = "*"
log = "*"
serde = { version = "*", features = ["derive"] }
serde_json = "*"
thiserror = "*"
regex = "*"
reqwest = { version = "*", default-features = false, features = ["json", "cookies", "form"] }
scraper = "*"
cookie = "*"
async-trait = "*"
