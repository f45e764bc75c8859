[package]
name = "worldchat"
version = "0.1.0"
edition = "2021"
publish = false

[dependencies]
irc-proto = "=1.1.0"
base64 = "=0.22.1"
base32 = "=0.5.1"
tokio = { version = "=1.54.1", features = ["rt", "rt-multi-thread", "time", "macros"] }
serde = { version = "=1.0.229", features = ["derive"] }
postcard = { version = "=1.1.3", features = ["alloc", "use-std"] }
async-channel = "=2.5.0"
futures-util = { version = "=0.3.34", features = ["sink"] }
futures-timer = "=3.0.4"
tokio-tungstenite-wasm = "=0.9.0"
rand = "=0.9.5"
wasm-bindgen = "=0.2.130"
pkarr = "*"
