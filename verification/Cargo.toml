[package]
name = "starknet_syscalls"
version = "0.1.0"
edition = "2021"
publish = false

[dependencies]
cairo-vm = "=0.1.3"
cairo-felt = "=0.1.3"
