[package]
name = "bnlc-mod-loader"
version = "0.1.0"
edition = "2021"
publish = false

[dependencies]
anyhow = "1"
clean-path = "0.2.1"
mlua = { version = "0.8", features = ["lua54", "vendored"] }
