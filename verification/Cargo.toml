[package]
name = "minifb_tile_base"
version = "0.1.0"
edition = "2021"
publish = false

[dependencies]
minifb = "*"
