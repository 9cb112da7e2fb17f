[package]
name = "jsonwatcher"
version = "0.1.0"
edition = "2021"
publish = false

[dependencies]
blake2 = "=0.8.1"
failure = "=0.1.8"
reqwest = "=0.9.24"
winrt-notification = "0.5"
