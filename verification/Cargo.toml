[package]
name = "generative_artistry"
version = "0.1.0"
edition = "2021"
publish = false

[dependencies]
anyhow = "1"
clap = "3"
nannou = "0.18"
rand = "0.8"
