[package]
name = "ernst"
version = "0.1.0"
edition = "2021"
publish = false

[dependencies]
fixedbitset = "*"
rand = "0.8"
ftree = "*"
rustc_apfloat = "*"
libm = "*"
bytemuck = "*"
