[package]
name = "mcu_caliptra_api_lite"
version = "0.1.0"
edition = "2021"
publish = false

[dependencies]
async-trait = "=0.1.92"
zerocopy = { version = "0.8", features = ["derive"] }
embassy-executor = "0.7.0"
embassy-sync = "0.6.2"
