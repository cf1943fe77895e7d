[package]
name = "net_tools"
version = "0.1.0"
edition = "2021"
publish = false

[dependencies]
async-std = "1"
clap = "2"
serde_json = "1"
surf = "2"
thiserror = "1"
