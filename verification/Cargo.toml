[package]
name = "egui_sdl2_canvas"
version = "0.1.0"
edition = "2021"
publish = false

[dependencies]
bytemuck = "=1.25.2"
egui = { version = "=0.31.1", default-features = false, features = ["bytemuck"] }
sdl2 = { version = "=0.37.0", default-features = false }
sdl2-sys = "=0.37.0"
