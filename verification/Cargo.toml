[package]
name = "adapton_lab"
version = "0.1.0"
edition = "2021"
publish = false

[dependencies]
adapton = "=0.3.31"
time = "=0.1.45"
