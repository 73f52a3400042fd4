[package]
name = "macho_layout"
version = "0.1.0"
edition = "2021"
publish = false

[dependencies]
goblin = "=0.5.4"
scroll = "=0.11.0"
comfy-table = { version = "=7.2.2", default-features = false }
