[package]
name = "swept_collision"
version = "0.1.0"
edition = "2021"
publish = false

[dependencies]
best = "=0.13.0"
cgmath = "=0.18.0"
fnv = "=1.0.7"
num = "=0.4.3"
