[package]
name = "ziprand"
version = "0.1.0"
edition = "2021"

[dependencies]
eyre = "0.6"
async-trait = "0.1"
