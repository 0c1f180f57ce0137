[package]
name = "diomedes"
version = "0.1.0"
edition = "2021"
publish = false

[dependencies]
ash = "=0.38.0"
glam = "=0.34.2"
log = "=0.4.35"
winit = "=0.30.13"
tobj = "=4.0.5"
egui = "*"
shaderc = "*"
