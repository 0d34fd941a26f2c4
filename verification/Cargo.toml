[package]
name = "chess_engine"
version = "0.1.0"
edition = "2021"
publish = false

[dependencies]
colored = "2"
iced = "0.3"
lazy_static = "1"
rand = "0.8"
threadpool = "1"
