[package]
name = "amuxd"
version = "0.1.0"
edition = "2021"
publish = false

[dependencies]
axum = { version = "0.7", features = ["ws"] }
chrono = "0.4"
include_dir = "0.7"
rusqlite = { version = "0.31", features = ["bundled"] }
serde = { version = "1", features = ["derive"] }
serde_json = "1"
serde-wasm-bindgen = "0.6"
tokio = { version = "1", features = ["full"] }
unicode-segmentation = "1"
unicode-width = "0.1"
uuid = { version = "1", features = ["v4"] }
vt100 = "0.15"
vte = "0.13"
wasm-bindgen = "0.2"
web-sys = { version = "0.3", features = ["CanvasRenderingContext2d", "HtmlCanvasElement"] }
