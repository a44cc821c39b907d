[package]
name = "perpl_market_making_bot"
version = "0.1.0"
edition = "2021"
publish = false

[dependencies]
rand = "0.9"
tokio = { version = "1", features = ["macros", "rt-multi-thread", "sync", "time"] }
clap = { version = "4", features = ["derive"] }
serde = { version = "1", features = ["derive"] }
envy = "0.4"
dotenvy = "0.15"
url = "2"
thiserror = "2"
