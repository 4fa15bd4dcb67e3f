[package]
name = "l2tp_handshake"
version = "0.1.0"
edition = "2021"
publish = false

[dependencies]
md5 = "=0.8.1"
tokio = { version = "=1.54.1", features = ["net", "rt-multi-thread", "macros"] }

[dev-dependencies]
rl2tp = "=1.0.0"
