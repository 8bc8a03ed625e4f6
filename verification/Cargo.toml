[package]
name = "ream"
version = "0.1.0"
edition = "2021"
publish = false

[dependencies]
unicode-segmentation = "*"
emojis = "=0.9.1"
rowan = "=0.17.0"
array_list = "*"
dashu-int = "=0.6.2"
log = { version = "*", features = ["kv"] }
colored = "=3.1.1"
tokio = { version = "*", features = ["full"] }
tower-lsp-server = "=0.23.0"
