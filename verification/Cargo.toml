[package]
name = "istring"
version = "0.4.2"
edition = "2021"
publish = false

[dependencies]
serde = "1"
datasize = "*"
rkyv = "*"
rancor = "*"
ts-rs = "*"
