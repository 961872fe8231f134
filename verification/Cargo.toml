[package]
name = "kas_layout"
version = "0.1.0"
edition = "2021"
publish = false

[dependencies]
smallvec = "=1.16.4"
raw-window-handle = "=0.1.2"
kas-text = "=0.2.1"
winit = "=0.20.0-alpha3"
wgpu_glyph = "=0.11.0"
rgx = "=0.2.0"
