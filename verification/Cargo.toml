[package]
name = "sleeping_journal"
version = "0.1.0"
edition = "2021"
publish = false

[dependencies]
csv = "=1.4.0"
serde = { version = "=1.0.229", features = ["derive"] }
serde_repr = "=0.1.21"
serde_json = "=1.0.154"
base64 = "=0.22.1"
chrono = "=0.4.45"
urlencoding = "=2.1.3"
gloo-storage = "=0.4.0"
gloo-timers = "=0.4.0"
gloo-history = "=0.3.0"
gloo-utils = "=0.3.0"
gloo-file = "=0.4.0"
wasm-bindgen = "=0.2.129"
web-sys = { version = "=0.3.106", features = ["Document", "Element", "File", "FileList", "HtmlElement", "HtmlInputElement", "Node"] }
