[package]
name = "frontary"
version = "0.1.0"
edition = "2021"
publish = false

[dependencies]
ipnet = "=2.12.2"
passwords = "=3.1.19"
bincode = "=1.3.3"
serde = { version = "=1.0.229", features = ["derive"] }
gloo-storage = "=0.3.0"
web-sys = { version = "=0.3.107", features = ["Window", "Navigator", "Document", "Element", "HtmlCanvasElement", "CanvasRenderingContext2d", "TextMetrics"] }
wasm-bindgen = "=0.2.130"
num-traits = "*"
jiff = "=0.2.39"
json-gettext = "*"
