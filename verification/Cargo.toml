[package]
name = "openasio"
version = "1.0.0"
edition = "2021"
publish = false

[dependencies]
alsa = "0.9"
anyhow = "1"
cpal = "0.15"
libloading = "0.8"
nix = "0.29"
