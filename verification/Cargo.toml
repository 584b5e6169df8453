[package]
name = "webrender_internal"
version = "0.1.0"
edition = "2021"
publish = false

[dependencies]
euclid = "=0.20.14"
offscreen_gl_context = "=0.25.1"
sparkle = "=0.1.10"
