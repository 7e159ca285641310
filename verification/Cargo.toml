[package]
name = "spiral_tiles"
version = "0.1.0"
edition = "2021"
publish = false

[dependencies]
leptos = "*"
leptos_meta = "*"
leptos_router = "*"
