[package]
name = "oneway"
version = "0.2.0"
edition = "2021"
publish = false

[dependencies]
tokio = { version = "1", features = ["io-std", "macros", "rt-multi-thread", "sync"] }
tower-lsp = "0.20"
