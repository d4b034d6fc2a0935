[package]
name = "grat"
version = "0.1.0"
edition = "2021"
publish = false

[dependencies]
stellar-xdr = { version = "22", features = ["std", "curr"] }
wasmparser = "*"
url = "2"
serde = { version = "1", features = ["derive"] }
serde_json = "1"
colored = "*"
tabled = "*"
toml = "*"
