[package]
name = "circle_game"
version = "0.1.0"
edition = "2021"
publish = false

[dependencies]
wasm-bindgen = "0.2"
web-sys = { version = "0.3", features = ["CanvasRenderingContext2d", "Document", "Element", "EventTarget", "HtmlButtonElement", "HtmlCanvasElement", "HtmlElement", "MouseEvent", "Window", "console"] }
