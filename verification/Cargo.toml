[package]
name = "midi_router"
version = "0.1.0"
edition = "2021"
publish = false

[dependencies]
lazy_static = "*"
midir = "*"
pretty-hex = "*"
rustyline = "*"
thiserror = "*"
