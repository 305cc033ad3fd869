[package]
name = "nbody"
version = "0.1.0"
edition = "2021"
publish = false

[dependencies]
macroquad = "0.3"
egui-macroquad = "0.15"
