[package]
name = "common_amm"
version = "0.1.0"
edition = "2021"
publish = false

[dependencies]
primitive-types = "=0.12.2"
parity-scale-codec = "=3.7.5"
psp22 = "=0.2.2"
ink = "=4.3.0"
sp-arithmetic = "=26.1.0"
