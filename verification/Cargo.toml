[package]
name = "chip8_hw"
version = "0.1.0"
edition = "2021"
publish = false

[dependencies]
rand = "0.6"
libchip8 = "*"
log = "*"
uefi = "*"
uefi-services = "*"
