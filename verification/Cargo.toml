[package]
name = "evenger"
version = "0.1.0"
edition = "2021"
publish = false

[dependencies]
nix = "0.20"
evdev-sys = "0.2"
