[package]
name = "genloop"
version = "0.1.0"
edition = "2021"
publish = false

[dependencies]
anyhow = "=1.0.104"
llama-cpp-2 = "=0.1.159"
hf-hub = "=0.3.2"

[dev-dependencies]
encoding_rs = "=0.8.42"
