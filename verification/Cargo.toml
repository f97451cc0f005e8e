[package]
name = "upstream"
version = "0.1.0"
edition = "2021"
publish = false

[dependencies]
anyhow = "1"
clap = { version = "3.2", features = ["derive", "env"] }
futures = "0.3"
kv = "0.24"
radicle-keystore = "0.2"
tokio = { version = "1", features = ["macros", "rt-multi-thread", "signal", "sync", "time"] }
tracing = "0.1"
tracing-subscriber = { version = "0.3", features = ["env-filter", "json"] }
warp = { version = "0.3", default-features = false }
