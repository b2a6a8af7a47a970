[package]
name = "handpicked"
version = "0.1.0"
edition = "2021"
publish = false

[dependencies]
console_error_panic_hook = "0.1"
console_log = "1"
leptos = { version = "0.6", features = ["csr"] }
log = "0.4"
random_color = "*"
