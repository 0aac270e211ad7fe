[package]
name = "auction_sniper"
version = "0.1.0"
edition = "2021"
publish = false

[dependencies]
anyhow = "1"
axum = "0.2"
tokio = { version = "1", features = ["rt-multi-thread", "sync"] }
