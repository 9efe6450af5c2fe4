[package]
name = "rust_paint"
version = "0.1.0"
edition = "2021"
publish = false

[dependencies]
conrod = "=0.57.0"
daggy = "0.5"
find_folder = "0.3"
petgraph = "0.4"
