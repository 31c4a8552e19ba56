[package]
name = "action_script"
version = "0.1.0"
edition = "2021"
publish = false

[dependencies]
enigo = "0.0.14"
