[package]
name = "no_os"
version = "0.1.0"
edition = "2021"
publish = false

[dependencies]
goblin = "=0.7.1"
uefi = "=0.24.0"
uefi-services = { version = "=0.21.0", default-features = false, features = ["logger"] }
bootloader = "=0.11.17"
