[package]
name = "wasm_goban"
version = "0.1.0"
edition = "2021"
publish = false

[dependencies]
goban = "*"
wasm-bindgen = "*"
console_error_panic_hook = "*"
web-sys = { version = "*", features = ["Window", "Document", "Element", "HtmlCanvasElement", "CanvasRenderingContext2d", "MouseEvent", "EventTarget", "console"] }
