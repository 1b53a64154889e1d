[package]
name = "fluent-locale"
version = "0.1.0"
edition = "2021"
publish = false

[dependencies]
icu_locid = "1"
icu_locid_transform = "1"
unic-langid = "0.9"
