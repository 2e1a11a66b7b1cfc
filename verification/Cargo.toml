[package]
name = "crab_sweeper"
version = "0.1.0"
edition = "2021"
publish = false

[dependencies]
oorandom = "11"
getrandom = "0.2"
glam = { version = "*", features = ["mint"] }
ggez = "0.5"
