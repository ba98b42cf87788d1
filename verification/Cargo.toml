[package]
name = "renderer"
version = "0.1.0"
edition = "2021"
publish = false

[dependencies]
smallvec = "1"
smol_str = "*"
glam = "*"
gltf = { version = "1", features = ["KHR_lights_punctual"] }
imgui = "*"
imgui-sdl2-support = "*"
imgui-opengl-renderer-rs = "*"
sdl2 = "*"
rand = "0.9"
stb_image = "*"
gl = "*"
