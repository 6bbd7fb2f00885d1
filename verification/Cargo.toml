[package]
name = "antenna_pattern_generator_lib"
version = "0.1.0"
edition = "2021"
publish = false

[dependencies]
num = "0.4"
derive-new = "0.5"
