[package]
name = "genetic_drawing"
version = "0.1.0"
edition = "2021"
publish = false

[dependencies]
rand = "=0.8.8"
serde = { version = "1", features = ["derive"] }
serde_json = "1"
wgpu = "0.16"
bytemuck = { version = "1", features = ["derive"] }
wasm-bindgen = "0.2"
wasm-bindgen-futures = "0.4"
js-sys = "0.3"
web-sys = { version = "0.3", features = ["CanvasRenderingContext2d", "Document", "Element", "HtmlCanvasElement", "ImageData", "Window", "console"] }
wasm-timer = "0.2"
futures-intrusive = "0.5"
log = "0.4"
console_log = "1"
console_error_panic_hook = "0.1"
