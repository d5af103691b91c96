[package]
name = "mwebsocket"
version = "0.1.0"
edition = "2021"
publish = false

[dependencies]
http = "1"
minreq = "2"
mlua = { version = "0.9", features = ["lua54", "module", "serialize"] }
serde_json = "1"
tungstenite = "0.21"
