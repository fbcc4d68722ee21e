[package]
name = "kv_memory_vsc_v0"
version = "0.1.0"
edition = "2021"
publish = false

[dependencies]
rustc_apfloat = "*"
libm = "*"
bytemuck = "*"
sha2 = "*"
hex = "*"
