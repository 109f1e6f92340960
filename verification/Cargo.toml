[package]
name = "launcher_meta"
version = "0.1.0"
edition = "2021"
publish = false

[dependencies]
serde = { version = "1", features = ["derive"] }
serde_json = "1"
worker = "*"
futures-util = "*"
js-sys = "*"
web-sys = { version = "*", features = ["AbortSignal"] }
console_error_panic_hook = "*"
