[package]
name = "packet_codec"
version = "0.1.0"
edition = "2021"

[dependencies]
bytes = "1"
serde = "1"
failure = "0.1"
