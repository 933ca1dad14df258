[package]
name = "python_ide"
version = "0.1.0"
edition = "2021"
publish = false

[dependencies]
base64 = "=0.22.1"
flate2 = "=1.1.10"
miniz_oxide = "=0.9.1"
console_error_panic_hook = "=0.1.7"
gloo-utils = { version = "=0.2.0", features = ["serde"] }
js-sys = "=0.3.106"
leptos = { version = "=0.6.15", features = ["csr"] }
leptos_meta = { version = "=0.6.15", features = ["csr"] }
leptos_router = { version = "=0.6.15", features = ["csr"] }
serde = { version = "=1.0.229", features = ["derive"] }
serde-wasm-bindgen = "=0.6.5"
wasm-bindgen = "=0.2.129"
web-sys = { version = "=0.3.106", features = ["Blob", "BlobPropertyBag", "HtmlElement", "Location", "MessageEvent", "Storage", "Url", "Window", "Worker"] }
