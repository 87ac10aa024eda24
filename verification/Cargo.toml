[package]
name = "glium_app"
version = "0.1.0"
edition = "2021"
publish = false

[dependencies]
egui = "0.17"
egui_glium = "0.17"
egui-winit = "0.17"
glium = "0.31"
glutin = "0.28"
