[package]
name = "ratatui_comfy_tabs"
version = "0.5.10"
edition = "2021"
publish = false

[dependencies]
ratatui-core = "0.1"
unicode-width = "0.2"
