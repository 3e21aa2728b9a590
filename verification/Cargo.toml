[package]
name = "hid_interface"
version = "0.1.0"
edition = "2021"
publish = false

[dependencies]
frunk = { version = "0.4", default-features = false }
packed_struct = { version = "0.10", default-features = false }
usb-device = "0.2"
