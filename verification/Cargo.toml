[package]
name = "mev_share"
version = "0.1.0"
edition = "2021"
publish = false

[dependencies]
ethers-core = "*"
anyhow = "*"
async-trait = "*"
clap = { version = "*", features = ["derive", "env"] }
jsonrpsee = { version = "*", features = ["server"] }
moka = { version = "*", features = ["sync"] }
redis = "*"
serde = { version = "*", features = ["derive"] }
thiserror = "*"
tokio = { version = "*", features = ["macros", "rt-multi-thread"] }
tracing = "*"
tracing-subscriber = "*"
