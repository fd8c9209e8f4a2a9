[package]
name = "fmod_studio"
version = "0.1.0"
edition = "2021"
publish = false

[dependencies]
lanyard = "*"
