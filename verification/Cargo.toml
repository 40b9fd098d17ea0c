[package]
name = "counter_ui"
version = "0.1.0"
edition = "2021"
publish = false

[dependencies]
yew = "0.19"
yew-router = "0.16"
gloo = "0.8"
wasm-bindgen = "0.2"
web-sys = { version = "0.3", features = ["HtmlInputElement", "Event", "EventTarget"] }
