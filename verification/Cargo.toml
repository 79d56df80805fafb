[package]
name = "diskfs"
version = "0.1.0"
edition = "2021"
publish = false

[dependencies]
hashbrown = "=0.9.1"
