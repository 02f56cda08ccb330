[package]
name = "translatable"
version = "0.1.0"
edition = "2021"
publish = false

[dependencies]
edit-distance = "2"
toml_edit = "0.22"
walkdir = "2"
thiserror = "2"
proc-macro2 = "1"
quote = "1"
syn = { version = "2", features = ["full"] }
