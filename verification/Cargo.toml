[package]
name = "chessbot"
version = "0.1.0"
edition = "2021"
publish = false

[dependencies]
shakmaty = "0.27"
