[package]
name = "tektite"
version = "0.1.0"
edition = "2021"
publish = false

[dependencies]
egui = "*"
marki-parse = "*"
