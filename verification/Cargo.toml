[package]
name = "asteroid_dodge"
version = "0.1.0"
edition = "2021"
publish = false

[dependencies]
rand = "0.9"
bevy = { version = "0.17", default-features = false, features = ["std", "bevy_state", "bevy_log"] }
avian2d = { version = "0.4", default-features = false, features = ["2d", "f32", "parry-f32"] }
wasm-bindgen = "0.2"
web-sys = { version = "0.3", features = ["console"] }
console_error_panic_hook = "0.1"
