[package]
name = "uefi_hid_core"
version = "0.1.0"
edition = "2021"
publish = false

[dependencies]
hidparser = "*"
r-efi = "*"
