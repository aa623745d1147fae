[package]
name = "tictactoe"
version = "0.1.0"
edition = "2021"
publish = false

[dependencies]
bs58 = "=0.5.1"
thiserror = "=1.0.69"
calimero-sdk = "=0.10.0"
calimero-storage = "=0.10.0"
fhe = "=0.1.1"
fhe-traits = "=0.1.1"
