[package]
name = "p2p_transfer"
version = "0.1.0"
edition = "2021"
publish = false

[dependencies]
crc16 = "0.4"
rand = "0.8"
serde_json = "1"
tokio = { version = "1", features = ["full"] }
tokio-tungstenite = "0.21"
futures-util = "0.3"
url = "2"
stunclient = "*"
local-ip-address = "*"
