[package]
name = "zim_dsp"
version = "0.1.0"
edition = "2021"
publish = false

[dependencies]
anyhow = "1"
cpal = "0.15"
dirs = "5"
rustyline = "14"
