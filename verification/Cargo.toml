[package]
name = "nyx"
version = "0.1.0"
edition = "2021"

[dependencies]
ariadne = "*"
bumpalo = "3"
lasso = "*"
