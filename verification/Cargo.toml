[package]
name = "iron_nest"
version = "0.1.0"
edition = "2021"
publish = false

[dependencies]
hex = "=0.4.3"
serde = { version = "=1.0.229", features = ["derive"] }
serde_json = "=1.0.154"
clap = { version = "=4.6.7", features = ["derive", "env"] }
tokio = { version = "=1.54.1", features = ["macros", "rt-multi-thread", "fs"] }
reqwest = { version = "=0.12.28", default-features = false, features = ["json", "rustls-tls"] }
axum = "=0.7.9"
chrono = "=0.4.45"
cid = "0.11.3"
multihash-codetable = { version = "0.2.2", features = ["sha2"] }
ipld-core = "0.4"
serde_ipld_dagjson = "0.2"
