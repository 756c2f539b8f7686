[package]
name = "rustsy"
version = "0.1.0"
edition = "2021"
publish = false

[dependencies]
cpal = "*"
hound = "*"
wmidi = "*"
