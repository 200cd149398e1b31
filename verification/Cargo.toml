[package]
name = "dspython"
version = "0.1.0"
edition = "2021"
publish = false

[dependencies]
rustpython-parser = "=0.3.1"
num-bigint = "=0.4.8"
num-traits = "=0.2.19"
clap = "=4.4.18"
