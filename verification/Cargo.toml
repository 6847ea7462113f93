[package]
name = "my_chess_ql"
version = "0.1.0"
edition = "2021"
publish = false

[dependencies]
arrayvec = "0.7"
regex = "1"
clap = "2"
