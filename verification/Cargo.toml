[package]
name = "rpn_calc"
version = "0.1.0"
edition = "2021"

[dependencies]
color-eyre = "0.6"
ratatui = "0.29"
