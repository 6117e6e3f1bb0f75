[package]
name = "no3"
version = "0.1.0"
edition = "2021"
publish = false

[dependencies]
anyhow = "=1.0.104"
chrono = { version = "=0.4.45", features = ["serde"] }
console_error_panic_hook = "*"
eframe = { version = "=0.36.2", default-features = false, features = ["default_fonts", "glow", "x11"] }
egui_code_editor = "=0.4.2"
egui-file-dialog = "=0.15.0"
ron = "=0.12.2"
serde = { version = "=1.0.229", features = ["derive"] }
serde_yaml_ng = "=0.10.0"
tracing = "=0.1.44"
tracing-subscriber = { version = "=0.3.23", features = ["env-filter"] }
tracing-wasm = "*"
wasm-bindgen-futures = "*"
zstd = "=0.14.3"
