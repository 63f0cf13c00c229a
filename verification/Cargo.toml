[package]
name = "stellar-contract-verify"
version = "0.1.0"
edition = "2021"
publish = false

[dependencies]
clap = { version = "4", features = ["derive", "env"] }
ctrlc = { version = "3", features = ["termination"] }
flate2 = "1"
regex = "1"
reqwest = { version = "0.12", default-features = false, features = ["blocking", "rustls-tls"] }
sha2 = "0.10"
shlex = "1"
stellar-xdr = "*"
tar = "0.4"
tempfile = "3"
thiserror = "2"
url = "2"
uuid = { version = "1", features = ["v4"] }
walkdir = "2"
wasmparser = "*"
zip = { version = "2", default-features = false, features = ["deflate"] }

[dev-dependencies]
wasm-gen = "*"
