[package]
name = "ic_routing"
version = "0.1.0"
edition = "2021"
publish = false

[dependencies]
candid = "=0.10.39"
prost = "=0.11.9"
serde = { version = "1", features = ["derive"] }
