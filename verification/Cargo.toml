[package]
name = "hexgem_engine"
version = "0.1.0"
edition = "2021"
publish = false

[dependencies]
egui = "0.26"
gl = "0.14"
glfw = "0.55"
imgui = "0.11"
imgui-opengl-renderer = "0.12"
log = "0.4"
sdl2 = "0.36"
