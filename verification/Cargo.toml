[package]
name = "seed_docs"
version = "0.1.0"
edition = "2021"
publish = false

[dependencies]
seed = "0.7.0"
seed_hooks = "*"
seed_style_preview = "*"
rand = "0.7"
wasm-bindgen = "0.2"
web-sys = { version = "0.3", features = ["Element", "HtmlCollection", "HtmlElement", "HtmlTextAreaElement", "Window"] }
