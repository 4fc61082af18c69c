[package]
name = "arx_reader"
version = "0.1.0"
edition = "2021"
publish = false

[dependencies]
libarx = { version = "=0.4.2", features = ["zstd"] }
jubako = "=0.4.1"

[dev-dependencies]
bstr = "*"
