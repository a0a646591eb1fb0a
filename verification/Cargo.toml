[package]
name = "nucleation"
version = "0.1.0"
edition = "2021"
publish = false

[dependencies]
serde_json = "1"
quartz_nbt = "0.2"
rand = "0.8"
