[package]
name = "xenomorph"
version = "0.1.0"
edition = "2021"
publish = false

[dependencies]
clap = { version = "4", features = ["derive"] }
libloading = "0.8"
lsp-types = "0.94"
serde = { version = "1", features = ["derive"] }
serde_json = "1"
tokio = { version = "1", features = ["io-std", "macros", "rt-multi-thread"] }
toml = "0.8"
tower-lsp = "0.20"
