[package]
name = "data_contract_creator"
version = "0.1.0"
edition = "2021"
publish = false

[dependencies]
anyhow = "=1.0.104"
serde = { version = "=1.0.229", features = ["derive"] }
serde_json = { version = "=1.0.154", features = ["preserve_order"] }
wasm-bindgen = "=0.2.129"
wasm-bindgen-futures = "=0.4.79"
wasm-logger = "=0.2.0"
web-sys = { version = "=0.3.106", features = ["console", "Headers", "HtmlInputElement", "HtmlSelectElement", "HtmlTextAreaElement", "Request", "RequestInit", "RequestMode", "Response", "Window"] }
yew = { version = "=0.20.0", features = ["csr"] }
