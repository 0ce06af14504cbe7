[package]
name = "rodeo"
version = "0.1.0"
edition = "2021"
publish = false

[dependencies]
serde = { version = "1", features = ["derive"] }
serde_json = "=1.0.154"
gloo-net = "=0.6.0"
gloo-storage = "=0.3.0"
gloo-timers = { version = "=0.3.0", features = ["futures"] }
js-sys = "0.3"
web-sys = { version = "0.3", features = ["Window", "Document", "Navigator", "Clipboard", "Location", "Storage", "Element", "HtmlElement", "HtmlInputElement", "HtmlTextAreaElement", "HtmlSelectElement", "Event", "EventTarget", "KeyboardEvent", "File", "FileList", "FormData", "Blob"] }
wasm-bindgen = "0.2"
wasm-bindgen-futures = "0.4"
leptos = { version = "=0.8.23", features = ["csr"] }
leptos_router = "=0.8.17"
