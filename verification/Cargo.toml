[package]
name = "abacus_agents"
version = "0.1.0"
edition = "2021"
publish = false

[dependencies]
ethers = { version = "=2.0.14", default-features = false }
rustc-hex = "=2.1.0"
tokio = { version = "=1.54.1", features = ["rt", "rt-multi-thread", "macros", "sync", "time"] }
eyre = "=0.6.14"
color-eyre = { version = "=0.6.5", default-features = false }
tracing = "=0.1.44"
async-trait = "=0.1.92"
futures-util = "=0.3.34"
once_cell = "=1.21.4"
prometheus = { version = "=0.13.4", default-features = false }
serde = { version = "=1.0.229", features = ["derive"] }
serde_json = "=1.0.154"
warp = { version = "=0.3.7", default-features = false }
