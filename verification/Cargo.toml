[package]
name = "csk_collection"
version = "0.1.0"
edition = "2021"
publish = false

[dependencies]
smash-sli = "*"
smash-bgm-property = "*"
