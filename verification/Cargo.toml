[package]
name = "flow_rust_sdk"
version = "0.1.0"
edition = "2021"
publish = false

[dependencies]
anyhow = "1"
bytes = "1"
hex = "0.4"
http = "0.2"
p256_flow = "*"
prost = "0.8"
rand_core = { version = "0.6", features = ["getrandom"] }
rlp = "0.5"
serde = { version = "1", features = ["derive"] }
serde_json = "1"
tokio = { version = "1", features = ["macros", "rt-multi-thread", "time"] }
tonic = "0.5"
