[package]
name = "mc_utils"
version = "0.1.0"
edition = "2021"
publish = false

[dependencies]
java-rand = "*"
md5 = "*"
ndarray = "*"
num-traits = "*"
once_cell = "*"
fastnbt = "*"
flate2 = "*"
