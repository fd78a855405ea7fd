[package]
name = "same70_hal"
version = "0.1.0"
edition = "2021"
publish = false

[dependencies]
atsame70q21 = "*"
cortex-m = "*"
embedded-hal = "0.2"
