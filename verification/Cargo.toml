[package]
name = "dojo_introspect"
version = "0.1.0"
edition = "2021"
publish = false

[dependencies]
starknet-types-core = "=0.2.4"
starknet-crypto = "=0.8.1"
cainome-cairo-serde = "=0.4.1"
starknet = "=0.17.0"
num-traits = "=0.2.19"
serde = { version = "=1.0.229", features = ["derive"] }
serde_json = "=1.0.154"
anyhow = "=1.0.104"
thiserror = "=2.0.21"
async-trait = "=0.1.92"
