[package]
name = "fevm_tests"
version = "0.1.0"
edition = "2021"
publish = false

[dependencies]
ethabi = "=18.0.0"
hex = "=0.4.3"
anyhow = "1"
serde = { version = "1", features = ["derive"] }
serde_json = "1"
bytes = "1"
etk-asm = "=0.3.0"
num-traits = "0.2"
fvm_shared = { version = "4", default-features = false }
fvm_ipld_encoding = "0.5"
fvm_ipld_blockstore = "0.3"
