[package]
name = "matrix_rust_p2p_client"
version = "0.1.0"
edition = "2021"
publish = false

[dependencies]
async-trait = "0.1"
http = "0.2"
libp2p = { version = "0.53", default-features = false, features = ["dns", "floodsub", "macros", "mdns", "noise", "tcp", "tokio", "websocket", "yamux"] }
reqwest = { version = "0.11", default-features = false }
ruma-api = "=0.17.0-alpha.1"
ruma-client-api = "=0.10.0-alpha.1"
ruma-identifiers = "0.17"
serde_json = { version = "1", features = ["raw_value"] }
tokio = { version = "1", features = ["full"] }
url = "2"
