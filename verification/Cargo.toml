[package]
name = "ltk_godot"
version = "0.1.0"
edition = "2021"
publish = false

[dependencies]
flate2 = "=1.1.10"
godot = "0.5"
ruzstd = "=0.9.1"
texpresso = "=2.0.2"
