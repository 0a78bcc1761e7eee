[package]
name = "emoji_picker"
version = "0.1.0"
edition = "2021"
publish = false

[dependencies]
emoji = "=0.2.1"
