[package]
name = "controller"
version = "0.3.0"
edition = "2021"
publish = false

[dependencies]
heapless = "=0.9.3"
embassy-sync = { version = "=0.8.0", features = ["std"] }
embassy-time = { version = "=0.5.1", features = ["std"] }
embassy-futures = "=0.1.2"
critical-section = { version = "=1.2.0", features = ["std"] }
embedded-graphics = "=0.8.2"
embedded-hal = "=1.0.0"
embedded-sdmmc = "=0.10.0"
futures-executor = "=0.3.34"
futures-util = "=0.3.34"
leptos = { version = "=0.8.23", features = ["csr"] }
wasm-bindgen = "=0.2.130"
wasm-bindgen-futures = "=0.4.80"
js-sys = "=0.3.107"
web-sys = { version = "=0.3.107", features = ["Window", "Navigator", "Performance", "Event", "EventTarget", "KeyboardEvent", "HtmlInputElement", "HtmlSelectElement"] }
console_error_panic_hook = "=0.1.7"
console_log = "=1.1.0"
log = "=0.4.35"
