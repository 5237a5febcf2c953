[package]
name = "obj_mesh"
version = "0.1.0"
edition = "2021"
publish = false

[dependencies]
obj-rs = "=0.7.4"
num-traits = "=0.2.19"
