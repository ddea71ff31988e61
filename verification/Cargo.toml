[package]
name = "crafting_interpreters"
version = "0.1.0"
edition = "2021"
publish = false

[dependencies]
rustc_apfloat = "*"
rustyline = "*"
thiserror = "*"
