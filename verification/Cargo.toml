[package]
name = "uni-v4"
version = "0.1.0"
edition = "2021"
publish = false

[dependencies]
alloy-primitives = "=1.7.3"
alloy-sol-types = "=1.7.3"
alloy-provider = { version = "=1.8.3", default-features = false }
alloy-rpc-types = "=1.8.3"
alloy-network = "=1.8.3"
alloy-consensus = "=1.8.3"
uniswap_v3_math = "=0.6.2"
dashmap = "=6.2.1"
tokio = { version = "=1.54.1", features = ["sync"] }
futures = "=0.3.34"
thiserror = "=2.0.21"
