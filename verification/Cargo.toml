[package]
name = "mpris_watch"
version = "0.1.0"
edition = "2021"
publish = false

[dependencies]
zbus = "*"
tokio = { version = "*", features = ["macros", "rt-multi-thread", "sync"] }
futures-util = "*"
