[package]
name = "lang_walk"
version = "0.1.0"
edition = "2021"
publish = false

[dependencies]
ast-grep-language = { version = "=0.45.3", default-features = false }
ignore = "=0.4.33"
