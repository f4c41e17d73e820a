[package]
name = "mouse_tracker"
version = "0.1.0"
edition = "2021"
publish = false

[dependencies]
axum = "*"
js-sys = "*"
leptos = "*"
leptos_meta = "*"
leptos_router = "*"
serde = { version = "*", features = ["derive"] }
serde_json = "*"
tokio = { version = "*", features = ["sync"] }
wasm-bindgen = "*"
wasm-bindgen-futures = "*"
web-sys = { version = "*", features = ["Window", "Request", "RequestInit", "RequestMode", "Headers", "Response", "Element", "HtmlElement", "Event", "EventTarget", "KeyboardEvent", "MouseEvent", "WheelEvent", "DragEvent", "console"] }
