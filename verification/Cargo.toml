[package]
name = "zkvm_pipeline"
version = "0.1.0"
edition = "2021"
publish = false

[dependencies]
risc0-zkp = { version = "=3.0.5", features = ["prove"] }
