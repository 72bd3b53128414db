[package]
name = "ogg_locate"
version = "0.1.0"
edition = "2021"
publish = false

[dependencies]
ogg_pager = "*"
